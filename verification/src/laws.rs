//! Properties of the step relation, stated and proved once, for every
//! machine.
//!
//! [`TuringMachine::step`](crate::machine::TuringMachine::step) returns
//! exactly [`spec_step`] of the machine before the call, so each lemma
//! below carries over to the executable engine.

use vstd::prelude::*;
use crate::instruction::DEFAULT_SYMBOL;
use crate::machine::{machine_inv, spec_step, MachineError, MachineModel};

verus! {

/// The machine after `n` steps of the step relation.
pub open spec fn run_steps(m: MachineModel, n: nat) -> MachineModel
    decreases n,
{
    if n == 0 {
        m
    } else {
        spec_step(run_steps(m, (n - 1) as nat)).0
    }
}

/// A halted machine is terminal: a step leaves it untouched and
/// reports that no step was taken.
pub proof fn lemma_halted_step_noop(m: MachineModel)
    requires
        m.state is None,
    ensures
        spec_step(m).0 == m,
        spec_step(m).1 == Ok::<bool, MachineError>(false),
{
}

/// Once halted, any number of further steps changes nothing.
pub proof fn lemma_halted_terminal(m: MachineModel, n: nat)
    requires
        m.state is None,
    ensures
        run_steps(m, n) == m,
    decreases n,
{
    if n > 0 {
        lemma_halted_terminal(m, (n - 1) as nat);
    }
}

/// A step preserves the tape invariant: the head stays strictly inside
/// the tape, before and after.
pub proof fn lemma_step_preserves_inv(m: MachineModel)
    requires
        machine_inv(m),
    ensures
        machine_inv(spec_step(m).0),
{
}

/// When a step is taken, the tape keeps its length or grows by exactly
/// one cell, never more; growth happens only at the edge the head
/// moved over — the left edge only with the head on cell zero, the
/// right edge only with the head on the last cell — and the new cell
/// always holds the default symbol.
pub proof fn lemma_step_growth(m: MachineModel)
    requires
        machine_inv(m),
        spec_step(m).1 == Ok::<bool, MachineError>(true),
    ensures
        m.tape.len() <= spec_step(m).0.tape.len() <= m.tape.len() + 1,
        spec_step(m).0.tape.len() == m.tape.len() + 1 ==> ((m.pos == 0 && spec_step(
            m,
        ).0.tape.first() == DEFAULT_SYMBOL) || (m.pos == m.tape.len() - 1 && spec_step(
            m,
        ).0.tape.last() == DEFAULT_SYMBOL)),
{
    match m.state {
        None => {
        },
        Some(s) => {
            match crate::table::find_instr(m.table.instrs, s, m.tape[m.pos]) {
                None => {
                },
                Some(ins) => {
                    let written = m.tape.update(m.pos, ins.new_entry);
                    assert((seq![DEFAULT_SYMBOL] + written)[0] == DEFAULT_SYMBOL);
                },
            }
        },
    }
}

/// The tape invariant holds before and after any number of steps.
pub proof fn lemma_run_preserves_inv(m: MachineModel, n: nat)
    requires
        machine_inv(m),
    ensures
        machine_inv(run_steps(m, n)),
    decreases n,
{
    if n > 0 {
        lemma_run_preserves_inv(m, (n - 1) as nat);
        lemma_step_preserves_inv(run_steps(m, (n - 1) as nat));
    }
}

/// A step never touches the transition table.
pub proof fn lemma_step_keeps_table(m: MachineModel)
    ensures
        spec_step(m).0.table == m.table,
{
}

/// The step counter advances by exactly one when a step is taken, and
/// not at all when the machine reports "already halted". The call that
/// first discovers a missing instruction advances the counter by one —
/// the attempted step is counted before the lookup — and records the
/// fault, touching nothing else; every later call on the stuck machine
/// leaves it untouched, so the counter keeps its fault-time value.
pub proof fn lemma_step_count(m: MachineModel)
    ensures
        spec_step(m).1 == Ok::<bool, MachineError>(true) ==> spec_step(m).0.num_steps
            == m.num_steps + 1,
        spec_step(m).1 == Ok::<bool, MachineError>(false) ==> spec_step(m).0 == m,
        spec_step(m).1 is Err && !m.faulted ==> spec_step(m).0 == (MachineModel {
            table: m.table,
            state: m.state,
            tape: m.tape,
            pos: m.pos,
            offset: m.offset,
            num_steps: m.num_steps + 1,
            faulted: true,
        }),
        spec_step(m).1 is Err && m.faulted ==> spec_step(m).0 == m,
{
}

/// A stuck machine is terminal: a step on it reports the fault again
/// and consults no instruction, leaving everything — the step counter
/// included — at its fault-time value.
pub proof fn lemma_faulted_step_noop(m: MachineModel)
    requires
        m.faulted,
        m.state is Some,
    ensures
        spec_step(m).0 == m,
        spec_step(m).1 == Err::<bool, MachineError>(MachineError::UndefinedTransition),
{
}

/// Once stuck, any number of further steps changes nothing.
pub proof fn lemma_faulted_terminal(m: MachineModel, n: nat)
    requires
        m.faulted,
        m.state is Some,
    ensures
        run_steps(m, n) == m,
    decreases n,
{
    if n > 0 {
        lemma_faulted_terminal(m, (n - 1) as nat);
    }
}

/// Determinism: the step relation is a function of the machine state
/// alone, so two runs from equal starting points agree after any
/// number of steps — in particular on their step counters and their
/// final tapes.
pub proof fn lemma_deterministic(a: MachineModel, b: MachineModel, n: nat)
    requires
        a == b,
    ensures
        run_steps(a, n) == run_steps(b, n),
{
}

} // verus!
