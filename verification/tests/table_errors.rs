use turing_machine::{Direction, ParseFault, TransitionTable, TuringMachine};

#[test]
fn wrong_field_count_is_rejected() {
    let err = TransitionTable::new(b"A 0 -> Halt 1\n").unwrap_err();
    assert_eq!(err.fault, ParseFault::WrongFieldCount);
    assert_eq!(err.line_number, 0);
    assert_eq!(err.line, b"A 0 -> Halt 1".to_vec());
}

#[test]
fn whitespace_only_line_is_rejected() {
    // A line of spaces is not blank: it has zero fields, not six.
    let err = TransitionTable::new(b"   \n").unwrap_err();
    assert_eq!(err.fault, ParseFault::WrongFieldCount);
    assert_eq!(err.line_number, 0);
}

#[test]
fn bad_read_symbol_is_rejected() {
    let err = TransitionTable::new(b"A x -> Halt 1 R\n").unwrap_err();
    assert_eq!(err.fault, ParseFault::BadReadSymbol);
}

#[test]
fn bad_write_symbol_is_rejected() {
    let err = TransitionTable::new(b"A 0 -> Halt y R\n").unwrap_err();
    assert_eq!(err.fault, ParseFault::BadWriteSymbol);
}

#[test]
fn oversized_symbol_is_rejected() {
    // 256 does not fit the symbol type.
    let err = TransitionTable::new(b"A 0 -> Halt 256 R\n").unwrap_err();
    assert_eq!(err.fault, ParseFault::BadWriteSymbol);
    // 255 does.
    assert!(TransitionTable::new(b"A 0 -> Halt 255 R\n").is_ok());
}

#[test]
fn bad_direction_is_rejected() {
    let err = TransitionTable::new(b"A 0 -> Halt 1 X\n").unwrap_err();
    assert_eq!(err.fault, ParseFault::BadDirection);
}

#[test]
fn duplicate_transition_is_rejected() {
    let err = TransitionTable::new(b"A 0 -> B 1 R\nA 0 -> Halt 1 L\n").unwrap_err();
    assert_eq!(err.fault, ParseFault::DuplicateTransition);
    assert_eq!(err.line_number, 1);
    assert_eq!(err.line, b"A 0 -> Halt 1 L".to_vec());
}

#[test]
fn same_state_different_symbol_is_no_duplicate() {
    let table = TransitionTable::new(b"A 0 -> A 1 R\nA 1 -> Halt 0 L\n").unwrap();
    assert_eq!(table.instruction_count(), 2);
}

#[test]
fn error_reports_first_bad_line() {
    let err = TransitionTable::new(b"A 0 -> B 1 R\nB 0 1 R\nA 1 -> Halt 1 X\n").unwrap_err();
    assert_eq!(err.line_number, 1);
    assert_eq!(err.fault, ParseFault::WrongFieldCount);
    assert_eq!(err.line, b"B 0 1 R".to_vec());
}

#[test]
fn blank_lines_are_skipped() {
    let table = TransitionTable::new(b"\nA 0 -> B 1 R\n\n\nB 0 -> Halt 1 L\n\n").unwrap();
    assert_eq!(table.instruction_count(), 2);
    assert_eq!(table.state_count(), 2);
}

#[test]
fn carriage_return_line_endings_are_accepted() {
    let table = TransitionTable::new(b"A 0 -> B 1 R\r\n\r\nB 0 -> Halt 1 L\r\n").unwrap();
    assert_eq!(table.instruction_count(), 2);
    assert_eq!(table.state_count(), 2);
}

#[test]
fn missing_final_newline_is_accepted() {
    let table = TransitionTable::new(b"A 0 -> Halt 1 R").unwrap();
    assert_eq!(table.instruction_count(), 1);
}

#[test]
fn empty_input_builds_an_empty_table() {
    let table = TransitionTable::new(b"").unwrap();
    assert_eq!(table.instruction_count(), 0);
    assert_eq!(table.state_count(), 0);
}

#[test]
fn states_are_interned_in_order_of_appearance() {
    let table = TransitionTable::new(b"A 0 -> B 1 R\nB 0 -> C 1 L\nC 0 -> Halt 1 R\n").unwrap();
    assert_eq!(table.state_count(), 3);
    assert_eq!(table.state_name(0).unwrap(), &b"A".to_vec());
    assert_eq!(table.state_name(1).unwrap(), &b"B".to_vec());
    assert_eq!(table.state_name(2).unwrap(), &b"C".to_vec());
    assert!(table.state_name(3).is_none());
}

#[test]
fn instructions_keep_declaration_order_and_fields() {
    let table = TransitionTable::new(b"A 1 -> B 0 R\nB 0 -> Halt 1 L\n").unwrap();
    let first = table.instruction(0).unwrap();
    assert_eq!(first.state, 0);
    assert_eq!(first.entry, 1);
    assert_eq!(first.new_state, Some(1));
    assert_eq!(first.new_entry, 0);
    assert_eq!(first.direction, Direction::Right);
    let second = table.instruction(1).unwrap();
    assert_eq!(second.state, 1);
    assert_eq!(second.entry, 0);
    assert_eq!(second.new_state, None);
    assert_eq!(second.new_entry, 1);
    assert_eq!(second.direction, Direction::Left);
    assert!(table.instruction(2).is_none());
}

#[test]
fn halt_is_no_state_name() {
    // The halt marker denotes the absence of a next state; it is not
    // interned.
    let table = TransitionTable::new(b"A 0 -> Halt 1 R\n").unwrap();
    assert_eq!(table.state_count(), 1);
    assert_eq!(table.state_name(0).unwrap(), &b"A".to_vec());
}

#[test]
fn machine_construction_propagates_table_errors() {
    let err = TuringMachine::new(b"A 0 -> Halt 1 Q\n").unwrap_err();
    assert_eq!(err.fault, ParseFault::BadDirection);
}
