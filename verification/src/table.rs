//! Transition tables: validated instruction sets with interned state
//! names.
//!
//! A table is built once from the text format and never changes. State
//! names are interned in order of first appearance, the source of a
//! line before its target; the machine's initial state is the state
//! interned first. Two instructions for the same
//! (source state, read symbol) pair are rejected at construction, so
//! that a built table is a partial function and lookup is unambiguous.

use vstd::prelude::*;
use crate::direction::Direction;
use crate::instruction::{Instruction, InstructionModel};
use crate::parse::{
    bytes_eq, direction_of, halt_token, is_halt_token, line_body, parse_direction, parse_symbol,
    split_into_lines, split_lines, symbol_of, tokenize, tokens,
};

verus! {

/// Why a line kept a table from being built.
#[derive(Debug, PartialEq, Eq, Clone, Copy, Structural)]
pub enum ParseFault {
    /// The line does not have exactly six whitespace-separated fields.
    WrongFieldCount,
    /// The second field is not a symbol.
    BadReadSymbol,
    /// The fifth field is not a symbol.
    BadWriteSymbol,
    /// The sixth field is neither `L` nor `R`.
    BadDirection,
    /// An earlier instruction already covers the same
    /// (source state, read symbol) pair.
    DuplicateTransition,
}

/// A construction error: the offending line, its zero-based position
/// among the lines of the input, and the reason.
#[derive(Debug, PartialEq, Eq)]
pub struct TableError {
    pub line_number: usize,
    pub line: Vec<u8>,
    pub fault: ParseFault,
}

/// The mathematical counterpart of [`TableError`].
pub struct TableErrorModel {
    pub line_number: int,
    pub line: Seq<u8>,
    pub fault: ParseFault,
}

impl View for TableError {
    type V = TableErrorModel;

    open spec fn view(&self) -> TableErrorModel {
        TableErrorModel {
            line_number: self.line_number as int,
            line: self.line@,
            fault: self.fault,
        }
    }
}

/// The mathematical content of a table: the interned state names in
/// order of first appearance, and the instructions in declaration
/// order.
pub struct TableModel {
    pub states: Seq<Seq<u8>>,
    pub instrs: Seq<InstructionModel>,
}

/// The first instruction for state `s` reading symbol `e` at or after
/// position `i`.
pub open spec fn find_instr_from(
    instrs: Seq<InstructionModel>,
    s: int,
    e: u8,
    i: int,
) -> Option<InstructionModel>
    decreases instrs.len() - i,
{
    if !(0 <= i < instrs.len()) {
        None
    } else if instrs[i].state == s && instrs[i].entry == e {
        Some(instrs[i])
    } else {
        find_instr_from(instrs, s, e, i + 1)
    }
}

/// The instruction consulted for state `s` reading symbol `e`: the
/// first match in declaration order. In a well-formed table at most one
/// instruction matches.
pub open spec fn find_instr(instrs: Seq<InstructionModel>, s: int, e: u8) -> Option<
    InstructionModel,
> {
    find_instr_from(instrs, s, e, 0)
}

/// The position of `name` among the interned names, searching from `i`.
pub open spec fn name_index_from(states: Seq<Seq<u8>>, name: Seq<u8>, i: int) -> Option<int>
    decreases states.len() - i,
{
    if !(0 <= i < states.len()) {
        None
    } else if states[i] == name {
        Some(i)
    } else {
        name_index_from(states, name, i + 1)
    }
}

/// The position of `name` among the interned names.
pub open spec fn name_index(states: Seq<Seq<u8>>, name: Seq<u8>) -> Option<int> {
    name_index_from(states, name, 0)
}

/// Interning: the names after resolving `name`, and its index. A new
/// name is appended; a known one keeps its index.
pub open spec fn intern(states: Seq<Seq<u8>>, name: Seq<u8>) -> (Seq<Seq<u8>>, int) {
    match name_index(states, name) {
        Some(i) => (states, i),
        None => (states.push(name), states.len() as int),
    }
}

/// What one line contributes: nothing, a fault, or an instruction
/// record with the state names still unresolved.
pub enum LineParse {
    Blank,
    Bad(ParseFault),
    Record {
        source: Seq<u8>,
        read: u8,
        target: Option<Seq<u8>>,
        write: u8,
        direction: Direction,
    },
}

/// Reads one line of the text format. The third field is reserved and
/// not interpreted; the fourth is a state name unless it is the halt
/// marker.
pub open spec fn parse_line(line: Seq<u8>) -> LineParse {
    let body = line_body(line);
    if body.len() == 0 {
        LineParse::Blank
    } else {
        let ts = tokens(body);
        if ts.len() != 6 {
            LineParse::Bad(ParseFault::WrongFieldCount)
        } else {
            match symbol_of(ts[1]) {
                None => LineParse::Bad(ParseFault::BadReadSymbol),
                Some(read) => match symbol_of(ts[4]) {
                    None => LineParse::Bad(ParseFault::BadWriteSymbol),
                    Some(write) => match direction_of(ts[5]) {
                        None => LineParse::Bad(ParseFault::BadDirection),
                        Some(direction) => LineParse::Record {
                            source: ts[0],
                            read,
                            target: if ts[3] == halt_token() {
                                None
                            } else {
                                Some(ts[3])
                            },
                            write,
                            direction,
                        },
                    },
                },
            }
        }
    }
}

/// Extends `t` by one parsed record: the source state is interned, then
/// the target unless it is the halt marker, and the instruction is
/// appended — unless an instruction for the same
/// (source state, read symbol) pair already exists.
pub open spec fn apply_record(
    t: TableModel,
    source: Seq<u8>,
    read: u8,
    target: Option<Seq<u8>>,
    write: u8,
    direction: Direction,
) -> Result<TableModel, ParseFault> {
    let source_interned = intern(t.states, source);
    let states1 = source_interned.0;
    let s = source_interned.1;
    let target_interned = match target {
        None => (states1, None),
        Some(name) => {
            let r = intern(states1, name);
            (r.0, Some(r.1))
        },
    };
    if find_instr(t.instrs, s, read) is Some {
        Err(ParseFault::DuplicateTransition)
    } else {
        Ok(
            TableModel {
                states: target_interned.0,
                instrs: t.instrs.push(
                    InstructionModel {
                        state: s,
                        entry: read,
                        new_state: target_interned.1,
                        new_entry: write,
                        direction,
                    },
                ),
            },
        )
    }
}

/// The table described by lines `k..` of `ls`, extending `acc`, or the
/// first error among them.
pub open spec fn build_from(ls: Seq<Seq<u8>>, k: int, acc: TableModel) -> Result<
    TableModel,
    TableErrorModel,
>
    decreases ls.len() - k,
{
    if !(0 <= k < ls.len()) {
        Ok(acc)
    } else {
        match parse_line(ls[k]) {
            LineParse::Blank => build_from(ls, k + 1, acc),
            LineParse::Bad(fault) => Err(
                TableErrorModel { line_number: k, line: ls[k], fault },
            ),
            LineParse::Record { source, read, target, write, direction } => match apply_record(
                acc,
                source,
                read,
                target,
                write,
                direction,
            ) {
                Err(fault) => Err(TableErrorModel { line_number: k, line: ls[k], fault }),
                Ok(acc2) => build_from(ls, k + 1, acc2),
            },
        }
    }
}

/// The table described by `content`, or the first error in it.
pub open spec fn build_table(content: Seq<u8>) -> Result<TableModel, TableErrorModel> {
    build_from(split_lines(content), 0, TableModel { states: Seq::empty(), instrs: Seq::empty() })
}

/// Whether an instruction only mentions states below `n`.
pub open spec fn instr_in_range(m: InstructionModel, n: int) -> bool {
    &&& 0 <= m.state < n
    &&& match m.new_state {
        Some(t) => 0 <= t < n,
        None => true,
    }
}

/// Whether two instructions cover different (state, symbol) pairs.
pub open spec fn keys_differ(a: InstructionModel, b: InstructionModel) -> bool {
    !(a.state == b.state && a.entry == b.entry)
}

/// The view of an optional instruction.
pub open spec fn opt_instr_view(o: Option<Instruction>) -> Option<InstructionModel> {
    match o {
        Some(i) => Some(i@),
        None => None,
    }
}

proof fn lemma_find_none_no_match(instrs: Seq<InstructionModel>, s: int, e: u8, i: int)
    requires
        0 <= i,
        find_instr_from(instrs, s, e, i) is None,
    ensures
        forall|j: int|
            i <= j < instrs.len() ==> !((#[trigger] instrs[j]).state == s && instrs[j].entry == e),
    decreases instrs.len() - i,
{
    if 0 <= i < instrs.len() {
        lemma_find_none_no_match(instrs, s, e, i + 1);
    }
}

proof fn lemma_no_match_find_none(instrs: Seq<InstructionModel>, s: int, e: u8, i: int)
    requires
        forall|j: int|
            i <= j < instrs.len() ==> !((#[trigger] instrs[j]).state == s && instrs[j].entry == e),
    ensures
        find_instr_from(instrs, s, e, i) is None,
    decreases instrs.len() - i,
{
    if 0 <= i < instrs.len() {
        lemma_no_match_find_none(instrs, s, e, i + 1);
    }
}

/// An immutable, validated transition table. `index` caches, for every
/// (state, symbol) pair, the instruction that `find_instr` denotes, so
/// that lookup during a run takes constant time.
#[derive(Debug)]
pub struct TransitionTable {
    instructions: Vec<Instruction>,
    states: Vec<Vec<u8>>,
    index: Vec<Vec<Option<Instruction>>>,
}

impl View for TransitionTable {
    type V = TableModel;

    closed spec fn view(&self) -> TableModel {
        TableModel { states: self.states.deep_view(), instrs: self.instructions.deep_view() }
    }
}

impl TransitionTable {
    /// Well-formedness: every instruction mentions only interned
    /// states, no two instructions share a (state, symbol) pair, and
    /// the lookup index agrees with `find_instr` everywhere.
    pub closed spec fn wf(&self) -> bool {
        &&& forall|i: int|
            0 <= i < self@.instrs.len() ==> instr_in_range(
                #[trigger] self@.instrs[i],
                self@.states.len() as int,
            )
        &&& forall|i: int, j: int|
            0 <= i < j < self@.instrs.len() ==> keys_differ(
                #[trigger] self@.instrs[i],
                #[trigger] self@.instrs[j],
            )
        &&& self.index.len() == self@.states.len()
        &&& forall|s: int|
            0 <= s < self.index@.len() ==> (#[trigger] self.index@[s])@.len() == 256
        &&& forall|s: int, e: int|
            0 <= s < self.index@.len() && 0 <= e < 256 ==> opt_instr_view(
                #[trigger] self.index@[s]@[e],
            ) == find_instr(self@.instrs, s, e as u8)
    }

    /// The number of interned state names.
    pub fn state_count(&self) -> (n: usize)
        ensures
            n == self@.states.len(),
    {
        self.states.len()
    }

    /// The interned name of state `i`, if there is one.
    pub fn state_name(&self, i: usize) -> (r: Option<&Vec<u8>>)
        ensures
            match r {
                Some(name) => i < self@.states.len() && name@ == self@.states[i as int],
                None => i >= self@.states.len(),
            },
    {
        if i < self.states.len() {
            let name = &self.states[i];
            proof {
                assert(name.deep_view() =~= name@);
            }
            Some(name)
        } else {
            None
        }
    }

    /// The number of instructions.
    pub fn instruction_count(&self) -> (n: usize)
        ensures
            n == self@.instrs.len(),
    {
        self.instructions.len()
    }

    /// The instruction at position `i` in declaration order, if any.
    pub fn instruction(&self, i: usize) -> (r: Option<Instruction>)
        ensures
            match r {
                Some(ins) => i < self@.instrs.len() && ins@ == self@.instrs[i as int],
                None => i >= self@.instrs.len(),
            },
    {
        if i < self.instructions.len() {
            Some(self.instructions[i])
        } else {
            None
        }
    }

    /// The instruction for state `s` reading symbol `e`, if the table
    /// has one.
    pub fn lookup(&self, s: usize, e: u8) -> (r: Option<Instruction>)
        requires
            self.wf(),
        ensures
            opt_instr_view(r) == find_instr(self@.instrs, s as int, e),
    {
        if s < self.index.len() {
            self.index[s][e as usize]
        } else {
            proof {
                assert(forall|j: int|
                    0 <= j < self@.instrs.len() ==> !((#[trigger] self@.instrs[j]).state
                        == s as int && self@.instrs[j].entry == e));
                lemma_no_match_find_none(self@.instrs, s as int, e, 0);
            }
            None
        }
    }

    /// Builds a table from the text format, rejecting duplicate
    /// (source state, read symbol) pairs eagerly.
    #[verifier::loop_isolation(false)]
    pub fn new(content: &[u8]) -> (r: Result<TransitionTable, TableError>)
        ensures
            match r {
                Ok(t) => t.wf() && build_table(content@) == Ok::<TableModel, TableErrorModel>(t@),
                Err(e) => build_table(content@) == Err::<TableModel, TableErrorModel>(e@),
            },
    {
        let lines = split_into_lines(content);
        let ghost ls = split_lines(content@);
        let ghost init = TableModel { states: Seq::empty(), instrs: Seq::empty() };
        let mut instructions: Vec<Instruction> = Vec::new();
        let mut states: Vec<Vec<u8>> = Vec::new();
        proof {
            assert(states.deep_view() =~= Seq::<Seq<u8>>::empty());
            assert(instructions.deep_view() =~= Seq::<InstructionModel>::empty());
        }
        let mut k: usize = 0;
        while k < lines.len()
            invariant
                k <= lines.len(),
                lines.deep_view() == ls,
                build_from(ls, 0, init) == build_from(
                    ls,
                    k as int,
                    TableModel {
                        states: states.deep_view(),
                        instrs: instructions.deep_view(),
                    },
                ),
                forall|i: int|
                    0 <= i < instructions.deep_view().len() ==> instr_in_range(
                        #[trigger] instructions.deep_view()[i],
                        states.deep_view().len() as int,
                    ),
                forall|i: int, j: int|
                    0 <= i < j < instructions.deep_view().len() ==> keys_differ(
                        #[trigger] instructions.deep_view()[i],
                        #[trigger] instructions.deep_view()[j],
                    ),
            decreases lines.len() - k,
        {
            let ghost pre = TableModel {
                states: states.deep_view(),
                instrs: instructions.deep_view(),
            };
            let line = &lines[k];
            proof {
                assert(lines.deep_view()[k as int] == line.deep_view());
                assert(line.deep_view() =~= line@);
            }
            let stripped = if line.len() > 0 && line[line.len() - 1] == 13 {
                line.len() - 1
            } else {
                line.len()
            };
            let body = vstd::slice::slice_subrange(line.as_slice(), 0, stripped);
            proof {
                assert(body@ =~= line_body(ls[k as int]));
            }
            if body.len() == 0 {
                proof {
                    assert(parse_line(ls[k as int]) is Blank);
                }
            } else {
                let toks = tokenize(body);
                let ghost ts = tokens(line_body(ls[k as int]));
                if toks.len() != 6 {
                    let e = TableError {
                        line_number: k,
                        line: vstd::slice::slice_to_vec(line.as_slice()),
                        fault: ParseFault::WrongFieldCount,
                    };
                    proof {
                        assert(parse_line(ls[k as int]) == LineParse::Bad(
                            ParseFault::WrongFieldCount,
                        ));
                        assert(e@.line == ls[k as int]);
                    }
                    return Err(e);
                }
                proof {
                    assert(toks.deep_view()[1] == toks@[1].deep_view());
                    assert(toks@[1].deep_view() =~= toks@[1]@);
                    assert(toks.deep_view()[4] == toks@[4].deep_view());
                    assert(toks@[4].deep_view() =~= toks@[4]@);
                    assert(toks.deep_view()[5] == toks@[5].deep_view());
                    assert(toks@[5].deep_view() =~= toks@[5]@);
                    assert(toks.deep_view()[0] == toks@[0].deep_view());
                    assert(toks@[0].deep_view() =~= toks@[0]@);
                    assert(toks.deep_view()[3] == toks@[3].deep_view());
                    assert(toks@[3].deep_view() =~= toks@[3]@);
                }
                let read = match parse_symbol(toks[1].as_slice()) {
                    Some(v) => v,
                    None => {
                        let e = TableError {
                            line_number: k,
                            line: vstd::slice::slice_to_vec(line.as_slice()),
                            fault: ParseFault::BadReadSymbol,
                        };
                        proof {
                            assert(parse_line(ls[k as int]) == LineParse::Bad(
                                ParseFault::BadReadSymbol,
                            ));
                            assert(e@.line == ls[k as int]);
                        }
                        return Err(e);
                    },
                };
                let write = match parse_symbol(toks[4].as_slice()) {
                    Some(v) => v,
                    None => {
                        let e = TableError {
                            line_number: k,
                            line: vstd::slice::slice_to_vec(line.as_slice()),
                            fault: ParseFault::BadWriteSymbol,
                        };
                        proof {
                            assert(parse_line(ls[k as int]) == LineParse::Bad(
                                ParseFault::BadWriteSymbol,
                            ));
                            assert(e@.line == ls[k as int]);
                        }
                        return Err(e);
                    },
                };
                let direction = match parse_direction(toks[5].as_slice()) {
                    Some(v) => v,
                    None => {
                        let e = TableError {
                            line_number: k,
                            line: vstd::slice::slice_to_vec(line.as_slice()),
                            fault: ParseFault::BadDirection,
                        };
                        proof {
                            assert(parse_line(ls[k as int]) == LineParse::Bad(
                                ParseFault::BadDirection,
                            ));
                            assert(e@.line == ls[k as int]);
                        }
                        return Err(e);
                    },
                };
                let s = intern_state(&mut states, toks[0].as_slice());
                let new_state: Option<usize> = if is_halt_token(toks[3].as_slice()) {
                    None
                } else {
                    Some(intern_state(&mut states, toks[3].as_slice()))
                };
                if find_instr_exec(&instructions, s, read).is_some() {
                    let e = TableError {
                        line_number: k,
                        line: vstd::slice::slice_to_vec(line.as_slice()),
                        fault: ParseFault::DuplicateTransition,
                    };
                    proof {
                        assert(parse_line(ls[k as int]) matches LineParse::Record { .. });
                        assert(apply_record(
                            pre,
                            ts[0],
                            read,
                            if ts[3] == halt_token() {
                                None
                            } else {
                                Some(ts[3])
                            },
                            write,
                            direction,
                        ) == Err::<TableModel, ParseFault>(ParseFault::DuplicateTransition));
                        assert(e@.line == ls[k as int]);
                    }
                    return Err(e);
                }
                let ins = Instruction { state: s, entry: read, new_state, new_entry: write, direction };
                let ghost prev_instrs = instructions.deep_view();
                instructions.push(ins);
                proof {
                    assert(instructions.deep_view() =~= prev_instrs.push(ins@));
                    let target = if ts[3] == halt_token() {
                        None
                    } else {
                        Some(ts[3])
                    };
                    assert(apply_record(pre, ts[0], read, target, write, direction)
                        == Ok::<TableModel, ParseFault>(
                        TableModel {
                            states: states.deep_view(),
                            instrs: instructions.deep_view(),
                        },
                    ));
                    assert forall|i: int| 0 <= i < prev_instrs.len() implies keys_differ(
                        prev_instrs[i],
                        ins@,
                    ) by {
                        lemma_find_none_no_match(prev_instrs, s as int, read, 0);
                    }
                }
            }
            k = k + 1;
        }
        proof {
            assert(build_from(ls, k as int, TableModel {
                states: states.deep_view(),
                instrs: instructions.deep_view(),
            }) == Ok::<TableModel, TableErrorModel>(TableModel {
                states: states.deep_view(),
                instrs: instructions.deep_view(),
            }));
        }
        let ghost done = TableModel { states: states.deep_view(), instrs: instructions.deep_view() };
        let mut index: Vec<Vec<Option<Instruction>>> = Vec::new();
        let mut si: usize = 0;
        while si < states.len()
            invariant
                si <= states.len(),
                index@.len() == si,
                forall|u: int| 0 <= u < si ==> (#[trigger] index@[u])@.len() == 256,
                forall|u: int, e: int|
                    0 <= u < si && 0 <= e < 256 ==> opt_instr_view(#[trigger] index@[u]@[e])
                        == find_instr(instructions.deep_view(), u, e as u8),
            decreases states.len() - si,
        {
            let mut row: Vec<Option<Instruction>> = Vec::new();
            let mut e: usize = 0;
            while e < 256
                invariant
                    e <= 256,
                    row@.len() == e,
                    forall|j: int|
                        0 <= j < e ==> opt_instr_view(#[trigger] row@[j]) == find_instr(
                            instructions.deep_view(),
                            si as int,
                            j as u8,
                        ),
                decreases 256 - e,
            {
                row.push(find_instr_exec(&instructions, si, e as u8));
                e = e + 1;
            }
            index.push(row);
            si = si + 1;
        }
        let t = TransitionTable { instructions, states, index };
        proof {
            assert(t.wf());
        }
        Ok(t)
    }
}

/// Resolves `name` to its interned index, appending it if it is new.
fn intern_state(states: &mut Vec<Vec<u8>>, name: &[u8]) -> (idx: usize)
    ensures
        final(states).deep_view() == intern(old(states).deep_view(), name@).0,
        idx as int == intern(old(states).deep_view(), name@).1,
        final(states).len() >= old(states).len(),
        idx < final(states).len(),
{
    let n = states.len();
    let mut i: usize = 0;
    while i < n
        invariant
            i <= n,
            n == states.len(),
            *states == *old(states),
            name_index(old(states).deep_view(), name@) == name_index_from(
                old(states).deep_view(),
                name@,
                i as int,
            ),
        decreases n - i,
    {
        proof {
            assert(states.deep_view()[i as int] == states@[i as int].deep_view());
            assert(states@[i as int].deep_view() =~= states@[i as int]@);
        }
        if bytes_eq(states[i].as_slice(), name) {
            return i;
        }
        i = i + 1;
    }
    let owned = vstd::slice::slice_to_vec(name);
    let ghost prev = states.deep_view();
    states.push(owned);
    proof {
        assert(states.deep_view() =~~= prev.push(name@));
    }
    states.len() - 1
}

/// Scans the instruction list for state `s` reading symbol `e`.
fn find_instr_exec(instrs: &Vec<Instruction>, s: usize, e: u8) -> (r: Option<Instruction>)
    ensures
        opt_instr_view(r) == find_instr(instrs.deep_view(), s as int, e),
{
    let mut i: usize = 0;
    while i < instrs.len()
        invariant
            i <= instrs.len(),
            find_instr(instrs.deep_view(), s as int, e) == find_instr_from(
                instrs.deep_view(),
                s as int,
                e,
                i as int,
            ),
        decreases instrs.len() - i,
    {
        let ins = instrs[i];
        proof {
            assert(instrs.deep_view()[i as int] == ins@);
        }
        if ins.state == s && ins.entry == e {
            return Some(ins);
        }
        i = i + 1;
    }
    None
}

} // verus!
