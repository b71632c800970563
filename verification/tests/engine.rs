use turing_machine::{MachineError, TuringMachine};

#[test]
fn one_step_machine_writes_and_grows_right() {
    let mut tm = TuringMachine::new(b"A 0 -> Halt 1 R\n").unwrap();
    assert_eq!(tm.current_state(), Some(0));
    assert_eq!(tm.tape(), &vec![0]);
    assert_eq!(tm.head_position(), 0);

    assert_eq!(tm.step(), Ok(true));

    assert_eq!(tm.current_state(), None);
    assert_eq!(tm.tape(), &vec![1, 0]);
    assert_eq!(tm.head_position(), 1);
    assert_eq!(tm.left_offset(), 0);
    assert_eq!(tm.num_steps, 1);
    assert_eq!(tm.eval_busy_bever(), (1, 1, 1));
}

#[test]
fn halted_machine_steps_are_noops() {
    let mut tm = TuringMachine::new(b"A 0 -> Halt 1 R\n").unwrap();
    assert_eq!(tm.step(), Ok(true));

    for _ in 0..5 {
        assert_eq!(tm.step(), Ok(false));
        assert!(!tm.is_faulted());
        assert_eq!(tm.current_state(), None);
        assert_eq!(tm.tape(), &vec![1, 0]);
        assert_eq!(tm.head_position(), 1);
        assert_eq!(tm.num_steps, 1);
    }
}

#[test]
fn undefined_transition_is_a_fault_not_a_halt() {
    // State A has no instruction for reading 1, and the run reaches
    // exactly that pair.
    let mut tm = TuringMachine::new(b"A 0 -> B 1 R\nB 0 -> A 1 L\n").unwrap();
    assert_eq!(tm.step(), Ok(true));
    assert_eq!(tm.step(), Ok(true));

    let tape_before = tm.tape().clone();
    let head_before = tm.head_position();
    assert!(!tm.is_faulted());
    assert_eq!(tm.step(), Err(MachineError::UndefinedTransition));

    // The machine is stuck, not halted: the state is still a state,
    // the attempted step was counted, and tape and head are untouched.
    assert!(tm.is_faulted());
    assert_eq!(tm.current_state(), Some(0));
    assert_eq!(tm.num_steps, 3);
    assert_eq!(tm.tape(), &tape_before);
    assert_eq!(tm.head_position(), head_before);

    // The fault is terminal: a further call reports it again and the
    // counter keeps its fault-time value.
    assert_eq!(tm.step(), Err(MachineError::UndefinedTransition));
    assert_eq!(tm.num_steps, 3);
    assert!(tm.is_faulted());
}

#[test]
fn empty_table_faults_on_first_step() {
    let mut tm = TuringMachine::new(b"").unwrap();
    assert!(!tm.is_faulted());
    assert_eq!(tm.step(), Err(MachineError::UndefinedTransition));
    assert_eq!(tm.num_steps, 1);
    assert!(tm.is_faulted());
    assert_eq!(tm.step(), Err(MachineError::UndefinedTransition));
    assert_eq!(tm.num_steps, 1);
}

#[test]
fn step_count_advances_once_per_step_taken() {
    let mut tm = TuringMachine::new(
        b"A 0 -> B 1 R\nA 1 -> B 1 L\nB 0 -> A 1 L\nB 1 -> Halt 1 R\n",
    )
    .unwrap();
    let mut expected: u128 = 0;
    while tm.step().unwrap() {
        expected += 1;
        assert_eq!(tm.num_steps, expected);
    }
    assert_eq!(tm.num_steps, expected);
    assert_eq!(expected, 6);
    assert_eq!(tm.step(), Ok(false));
    assert_eq!(tm.num_steps, expected);
}

#[test]
fn head_stays_inside_the_tape() {
    let mut tm = TuringMachine::new(
        b"A 0 -> B 1 R\nA 1 -> B 1 L\nB 0 -> A 1 L\nB 1 -> C 0 L\nC 0 -> Halt 1 R\nC 1 -> D 1 L\nD 0 -> D 1 R\nD 1 -> A 0 R\n",
    )
    .unwrap();
    assert!(tm.head_position() < tm.tape().len());
    while tm.step().unwrap() {
        assert!(tm.head_position() < tm.tape().len());
    }
    assert!(tm.head_position() < tm.tape().len());
}

#[test]
fn tape_grows_one_default_cell_at_the_moved_edge() {
    let mut tm = TuringMachine::new(
        b"A 0 -> B 1 R\nA 1 -> B 1 L\nB 0 -> A 1 L\nB 1 -> C 0 L\nC 0 -> Halt 1 R\nC 1 -> D 1 L\nD 0 -> D 1 R\nD 1 -> A 0 R\n",
    )
    .unwrap();
    loop {
        let before = tm.tape().clone();
        let head = tm.head_position();
        if !tm.step().unwrap() {
            break;
        }
        let after = tm.tape();
        assert!(after.len() == before.len() || after.len() == before.len() + 1);
        if after.len() == before.len() + 1 {
            if tm.head_position() == 0 {
                // Grew on the left: the head was on cell zero, and the
                // new first cell — the one the head now sits on — holds
                // the default symbol.
                assert_eq!(head, 0);
                assert_eq!(after[0], 0);
                for i in 0..before.len() {
                    if i != head {
                        assert_eq!(after[i + 1], before[i]);
                    }
                }
            } else {
                // Grew on the right: the head was on the last cell and
                // the appended cell holds the default symbol.
                assert_eq!(head, before.len() - 1);
                assert_eq!(*after.last().unwrap(), 0);
                for i in 0..before.len() {
                    if i != head {
                        assert_eq!(after[i], before[i]);
                    }
                }
            }
        }
    }
}

#[test]
fn left_growth_is_recorded_in_the_offset() {
    let mut tm = TuringMachine::new(b"A 0 -> B 1 L\nB 0 -> Halt 1 L\n").unwrap();
    assert_eq!(tm.step(), Ok(true));
    assert_eq!(tm.tape(), &vec![0, 1]);
    assert_eq!(tm.head_position(), 0);
    assert_eq!(tm.left_offset(), 1);
    assert_eq!(tm.step(), Ok(true));
    assert_eq!(tm.tape(), &vec![0, 1, 1]);
    assert_eq!(tm.head_position(), 0);
    assert_eq!(tm.left_offset(), 2);
    assert_eq!(tm.step(), Ok(false));
}

#[test]
fn two_runs_from_the_same_table_agree() {
    let src = b"A 0 -> B 1 R\nA 1 -> Halt 1 R\nB 0 -> C 0 R\nB 1 -> B 1 R\nC 0 -> C 1 L\nC 1 -> A 1 L\n";
    let mut first = TuringMachine::new(src).unwrap();
    let mut second = TuringMachine::new(src).unwrap();
    loop {
        let a = first.step();
        let b = second.step();
        assert_eq!(a, b);
        assert_eq!(first.tape(), second.tape());
        assert_eq!(first.head_position(), second.head_position());
        assert_eq!(first.current_state(), second.current_state());
        assert_eq!(first.num_steps, second.num_steps);
        if a == Ok(false) {
            break;
        }
    }
    assert_eq!(first.eval_busy_bever(), second.eval_busy_bever());
}

#[test]
fn tally_counts_each_symbol_value() {
    let mut tm = TuringMachine::new(b"A 0 -> B 2 R\nB 0 -> Halt 1 L\n").unwrap();
    while tm.step().unwrap() {}
    // Tape is [2, 1]: the first cell was rewritten to 2, the second to
    // 1, and no growth was left over.
    assert_eq!(tm.tape(), &vec![2, 1]);
    assert_eq!(tm.tally(0), 0);
    assert_eq!(tm.tally(1), 1);
    assert_eq!(tm.tally(2), 1);
    assert_eq!(tm.tally(3), 0);
}
