use turing_machine::TuringMachine;

// Canonical busy-beaver machines over the binary alphabet with blank
// default 0, in the six-field line format; the third field is the
// reserved column the engine ignores.

const BB_1: &str = "A 0 -> Halt 1 R\n";

const BB_2: &str = "\
A 0 -> B 1 R
A 1 -> B 1 L
B 0 -> A 1 L
B 1 -> Halt 1 R
";

const BB_3: &str = "\
A 0 -> B 1 R
A 1 -> Halt 1 R
B 0 -> C 0 R
B 1 -> B 1 R
C 0 -> C 1 L
C 1 -> A 1 L
";

const BB_4: &str = "\
A 0 -> B 1 R
A 1 -> B 1 L
B 0 -> A 1 L
B 1 -> C 0 L
C 0 -> Halt 1 R
C 1 -> D 1 L
D 0 -> D 1 R
D 1 -> A 0 R
";

const BB_5: &str = "\
A 0 -> B 1 R
A 1 -> C 1 L
B 0 -> C 1 R
B 1 -> B 1 R
C 0 -> D 1 R
C 1 -> E 0 L
D 0 -> A 1 L
D 1 -> D 1 L
E 0 -> Halt 1 R
E 1 -> A 0 L
";

#[test]
fn test_busy_bever_1() {
    let mut tm = TuringMachine::new(BB_1.as_bytes()).unwrap();

    let mut num_steps = 0;
    while tm.step().unwrap() {
        num_steps += 1;
    }

    let (ones, zeros, _steps) = tm.eval_busy_bever();

    assert_eq!(ones, 1);
    assert_eq!(zeros, 1);
    assert_eq!(num_steps, 1);
}

#[test]
fn test_busy_bever_2() {
    let mut tm = TuringMachine::new(BB_2.as_bytes()).unwrap();

    let mut num_steps = 0;
    while tm.step().unwrap() {
        num_steps += 1;
    }

    let (ones, zeros, _steps) = tm.eval_busy_bever();

    assert_eq!(ones, 4);
    assert_eq!(zeros, 0);
    assert_eq!(num_steps, 6);
}

#[test]
fn test_busy_bever_3() {
    let mut tm = TuringMachine::new(BB_3.as_bytes()).unwrap();

    let mut num_steps = 0;
    while tm.step().unwrap() {
        num_steps += 1;
    }

    let (ones, zeros, _steps) = tm.eval_busy_bever();

    assert_eq!(ones, 6);
    assert_eq!(zeros, 0);
    assert_eq!(num_steps, 14);
}

#[test]
fn test_busy_bever_4() {
    let mut tm = TuringMachine::new(BB_4.as_bytes()).unwrap();

    let mut num_steps = 0;
    while tm.step().unwrap() {
        num_steps += 1;
    }

    let (ones, zeros, _steps) = tm.eval_busy_bever();

    assert_eq!(ones, 13);
    assert_eq!(zeros, 1);
    assert_eq!(num_steps, 107);
}

#[test]
fn test_busy_bever_5() {
    let mut tm = TuringMachine::new(BB_5.as_bytes()).unwrap();

    let mut num_steps = 0;
    while tm.step().unwrap() {
        num_steps += 1;
    }

    let (ones, zeros, _steps) = tm.eval_busy_bever();

    assert_eq!(ones, 4098);
    assert_eq!(zeros, 8191);
    assert_eq!(num_steps, 47176870);
}
