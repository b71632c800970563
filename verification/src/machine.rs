//! The execution engine: a tape, a head, a control state, and a step
//! counter, driven by an immutable transition table.
//!
//! The tape is logically unbounded in both directions. It is backed by
//! a growable buffer that is extended by exactly one default cell
//! whenever the head would leave it, so the head position is always in
//! bounds. `offset` counts the cells prepended on the left since the
//! start, for aligning tape dumps; it has no bearing on the semantics.

use vstd::prelude::*;
use crate::direction::Direction;
use crate::instruction::DEFAULT_SYMBOL;
use crate::table::{build_table, find_instr, TableError, TableModel, TransitionTable};

verus! {

/// The one runtime failure: the table has no instruction for the
/// current (state, symbol) pair. The machine is stuck, not halted. The
/// faulting step still counts the attempted step — the counter is
/// advanced before the lookup — and records the fault; every later
/// step leaves the machine untouched and reports the fault again, so
/// the tape, state and step count stay inspectable as they were at the
/// fault.
#[derive(Debug, PartialEq, Eq, Clone, Copy, Structural)]
pub enum MachineError {
    UndefinedTransition,
}

/// The mathematical state of a machine.
pub struct MachineModel {
    pub table: TableModel,
    pub state: Option<int>,
    pub tape: Seq<u8>,
    pub pos: int,
    pub offset: int,
    pub num_steps: int,
    pub faulted: bool,
}

/// The head stays strictly inside the tape, and the left-growth count
/// stays below the tape length (each left growth lengthens the tape).
/// A recorded fault implies a current state: only a running machine
/// can get stuck.
pub open spec fn machine_inv(m: MachineModel) -> bool {
    &&& 0 <= m.pos < m.tape.len()
    &&& 0 <= m.offset < m.tape.len()
    &&& 0 <= m.num_steps
    &&& m.faulted ==> m.state is Some
}

/// One step of the abstract machine: what a call to
/// [`TuringMachine::step`] does and returns.
///
/// A halted machine (`state` is `None`) is left untouched and reports
/// `Ok(false)`; one already stuck is left untouched and reports the
/// fault again. Otherwise the counter advances by one first; if then
/// no instruction covers the current pair, the fault is recorded and
/// reported, with tape, head and state untouched. If one does, the
/// instruction's symbol is written, the control state becomes its
/// target — the halting step itself still counts — and the head moves
/// one cell, growing the tape by one default cell if it would fall off
/// either edge.
pub open spec fn spec_step(m: MachineModel) -> (MachineModel, Result<bool, MachineError>) {
    match m.state {
        None => (m, Ok(false)),
        Some(s) => if m.faulted {
            (m, Err(MachineError::UndefinedTransition))
        } else {
            match find_instr(m.table.instrs, s, m.tape[m.pos]) {
            None => (
                MachineModel {
                    table: m.table,
                    state: m.state,
                    tape: m.tape,
                    pos: m.pos,
                    offset: m.offset,
                    num_steps: m.num_steps + 1,
                    faulted: true,
                },
                Err(MachineError::UndefinedTransition),
            ),
            Some(ins) => {
                let written = m.tape.update(m.pos, ins.new_entry);
                let moved = match ins.direction {
                    Direction::Left => {
                        if m.pos == 0 {
                            (seq![DEFAULT_SYMBOL] + written, 0, m.offset + 1)
                        } else {
                            (written, m.pos - 1, m.offset)
                        }
                    },
                    Direction::Right => {
                        if m.pos + 1 == written.len() {
                            (written.push(DEFAULT_SYMBOL), m.pos + 1, m.offset)
                        } else {
                            (written, m.pos + 1, m.offset)
                        }
                    },
                };
                (
                    MachineModel {
                        table: m.table,
                        state: ins.new_state,
                        tape: moved.0,
                        pos: moved.1,
                        offset: moved.2,
                        num_steps: m.num_steps + 1,
                        faulted: false,
                    },
                    Ok(true),
                )
            },
            }
        },
    }
}

/// The number of cells of `tape` holding exactly `v`.
pub open spec fn count_symbol(tape: Seq<u8>, v: u8) -> nat
    decreases tape.len(),
{
    if tape.len() == 0 {
        0
    } else {
        count_symbol(tape.drop_last(), v) + if tape.last() == v {
            1nat
        } else {
            0nat
        }
    }
}

/// A Turing machine mid-run: an immutable transition table, the tape
/// with the head position and left-growth offset, the current control
/// state (`None` once halted), a flag recording whether the machine is
/// stuck on a missing instruction, and the number of steps taken.
#[derive(Debug)]
pub struct TuringMachine {
    table: TransitionTable,
    state: Option<usize>,
    tape: Vec<u8>,
    pos: usize,
    offset: usize,
    faulted: bool,
    /// Steps taken so far. 128 bits, so that runs of billions of steps
    /// are nowhere near wrapping.
    pub num_steps: u128,
}

impl View for TuringMachine {
    type V = MachineModel;

    closed spec fn view(&self) -> MachineModel {
        MachineModel {
            table: self.table@,
            state: match self.state {
                Some(s) => Some(s as int),
                None => None,
            },
            tape: self.tape@,
            pos: self.pos as int,
            offset: self.offset as int,
            num_steps: self.num_steps as int,
            faulted: self.faulted,
        }
    }
}

impl TuringMachine {
    /// The table is well formed and the tape invariant holds.
    pub closed spec fn wf(&self) -> bool {
        &&& self.table.wf()
        &&& machine_inv(self@)
    }

    /// The tape invariant, visible through the view.
    pub proof fn lemma_wf_inv(&self)
        requires
            self.wf(),
        ensures
            machine_inv(self@),
    {
    }

    /// Builds the machine for the table described by `content`: the
    /// first state of the first instruction as control state, a
    /// one-cell tape holding the default symbol, and no steps taken.
    pub fn new(content: &[u8]) -> (r: Result<TuringMachine, TableError>)
        ensures
            match r {
                Ok(m) => {
                    &&& m.wf()
                    &&& build_table(content@) == Ok::<TableModel, crate::table::TableErrorModel>(
                        m@.table,
                    )
                    &&& m@.state == Some(0int)
                    &&& m@.tape == seq![DEFAULT_SYMBOL]
                    &&& m@.pos == 0
                    &&& m@.offset == 0
                    &&& m@.num_steps == 0
                    &&& !m@.faulted
                },
                Err(e) => build_table(content@) == Err::<TableModel, crate::table::TableErrorModel>(
                    e@,
                ),
            },
    {
        match TransitionTable::new(content) {
            Err(e) => Err(e),
            Ok(table) => {
                let tape: Vec<u8> = vec![DEFAULT_SYMBOL];
                proof {
                    assert(tape@ =~= seq![DEFAULT_SYMBOL]);
                }
                Ok(
                    TuringMachine {
                        table,
                        state: Some(0),
                        tape,
                        pos: 0,
                        offset: 0,
                        faulted: false,
                        num_steps: 0,
                    },
                )
            },
        }
    }

    /// Takes one step: exactly [`spec_step`] of the machine before the
    /// call. Returns `Ok(true)` if an instruction fired (also on the
    /// halting step), `Ok(false)` if the machine had already halted,
    /// and the fault if the table has no instruction for the current
    /// pair. The faulting call itself still counts the attempted step
    /// and records the fault; a call on a machine already halted or
    /// already stuck mutates nothing.
    pub fn step(&mut self) -> (r: Result<bool, MachineError>)
        requires
            old(self).wf(),
            old(self)@.state is Some ==> old(self)@.num_steps < u128::MAX && old(
                self,
            )@.tape.len() < usize::MAX,
        ensures
            final(self).wf(),
            final(self)@ == spec_step(old(self)@).0,
            r == spec_step(old(self)@).1,
    {
        let st = match self.state {
            None => {
                return Ok(false);
            },
            Some(st) => st,
        };
        if self.faulted {
            return Err(MachineError::UndefinedTransition);
        }
        let sym = self.tape[self.pos];
        let ins = match self.table.lookup(st, sym) {
            None => {
                self.num_steps = self.num_steps + 1;
                self.faulted = true;
                return Err(MachineError::UndefinedTransition);
            },
            Some(ins) => ins,
        };
        self.num_steps = self.num_steps + 1;
        self.tape[self.pos] = ins.new_entry;
        self.state = ins.new_state;
        match ins.direction {
            Direction::Left => {
                if self.pos == 0 {
                    self.extend_left();
                }
                self.pos = self.pos - 1;
            },
            Direction::Right => {
                if self.pos + 1 == self.tape.len() {
                    self.extend_right();
                }
                self.pos = self.pos + 1;
            },
        }
        proof {
            assert(final(self)@.tape =~= spec_step(old(self)@).0.tape);
        }
        Ok(true)
    }

    /// Grows the tape by one default cell on the left, keeping the head
    /// over the same logical cell and recording the growth in `offset`.
    pub fn extend_left(&mut self)
        requires
            old(self)@.tape.len() < usize::MAX,
            old(self)@.pos < usize::MAX,
            old(self)@.offset < usize::MAX,
        ensures
            final(self)@.tape == seq![DEFAULT_SYMBOL] + old(self)@.tape,
            final(self)@.pos == old(self)@.pos + 1,
            final(self)@.offset == old(self)@.offset + 1,
            final(self)@.state == old(self)@.state,
            final(self)@.table == old(self)@.table,
            final(self)@.num_steps == old(self)@.num_steps,
            final(self)@.faulted == old(self)@.faulted,
            old(self).wf() ==> final(self).wf(),
    {
        self.tape.insert(0, DEFAULT_SYMBOL);
        self.pos = self.pos + 1;
        self.offset = self.offset + 1;
        proof {
            assert(final(self)@.tape =~= seq![DEFAULT_SYMBOL] + old(self)@.tape);
        }
    }

    /// Grows the tape by one default cell on the right.
    pub fn extend_right(&mut self)
        requires
            old(self)@.tape.len() < usize::MAX,
        ensures
            final(self)@.tape == old(self)@.tape.push(DEFAULT_SYMBOL),
            final(self)@.pos == old(self)@.pos,
            final(self)@.offset == old(self)@.offset,
            final(self)@.state == old(self)@.state,
            final(self)@.table == old(self)@.table,
            final(self)@.num_steps == old(self)@.num_steps,
            final(self)@.faulted == old(self)@.faulted,
            old(self).wf() ==> final(self).wf(),
    {
        self.tape.push(DEFAULT_SYMBOL);
    }

    /// The number of tape cells holding exactly `v`.
    pub fn tally(&self, v: u8) -> (n: usize)
        ensures
            n == count_symbol(self@.tape, v),
    {
        let mut n: usize = 0;
        let mut i: usize = 0;
        while i < self.tape.len()
            invariant
                i <= self.tape.len(),
                n <= i,
                n == count_symbol(self@.tape.take(i as int), v),
            decreases self.tape.len() - i,
        {
            proof {
                assert(self@.tape.take(i as int + 1).drop_last() =~= self@.tape.take(i as int));
                assert(self@.tape.take(i as int + 1).last() == self@.tape[i as int]);
            }
            if self.tape[i] == v {
                n = n + 1;
            }
            i = i + 1;
        }
        proof {
            assert(self@.tape.take(i as int) =~= self@.tape);
        }
        n
    }

    /// The busy-beaver tally: how many ones and how many zeros the tape
    /// holds, together with the number of steps taken.
    pub fn eval_busy_bever(&self) -> (r: (u128, u128, u128))
        ensures
            r.0 == count_symbol(self@.tape, 1),
            r.1 == count_symbol(self@.tape, 0),
            r.2 == self@.num_steps,
    {
        let ones = self.tally(1);
        let zeros = self.tally(0);
        (ones as u128, zeros as u128, self.num_steps)
    }

    /// The current control state, `None` once halted.
    pub fn current_state(&self) -> (r: Option<usize>)
        ensures
            match r {
                Some(s) => self@.state == Some(s as int),
                None => self@.state is None,
            },
    {
        self.state
    }

    /// Whether the machine is stuck on a missing instruction. Distinct
    /// from halting: a stuck machine still has a current state.
    pub fn is_faulted(&self) -> (b: bool)
        ensures
            b == self@.faulted,
    {
        self.faulted
    }

    /// The head position, an index into the tape contents.
    pub fn head_position(&self) -> (p: usize)
        ensures
            p == self@.pos,
    {
        self.pos
    }

    /// How many cells have been prepended since the start; used only to
    /// align tape dumps against the original left edge.
    pub fn left_offset(&self) -> (o: usize)
        ensures
            o == self@.offset,
    {
        self.offset
    }

    /// The tape contents, leftmost cell first.
    pub fn tape(&self) -> (t: &Vec<u8>)
        ensures
            t@ == self@.tape,
    {
        &self.tape
    }

    /// The transition table driving this machine.
    pub fn table(&self) -> (t: &TransitionTable)
        ensures
            t@ == self@.table,
            self.wf() ==> t.wf(),
    {
        &self.table
    }
}

} // verus!
