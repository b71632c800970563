//! The line-oriented text format for transition tables.
//!
//! One instruction per non-empty line, six whitespace-separated fields:
//! source state, symbol read, a reserved column the engine ignores,
//! target state or the halt marker `Halt`, symbol written, and a
//! direction letter (`L` or `R`). Symbols are written in decimal.
//! Lines are separated by newline bytes; a line that is empty (apart
//! from a trailing carriage return) is skipped.

use vstd::prelude::*;
use crate::direction::Direction;

verus! {

/// Bytes that separate fields within a line: space, tab, and carriage
/// return.
pub open spec fn is_space(b: u8) -> bool {
    b == 32 || b == 9 || b == 13
}

/// ASCII decimal digit.
pub open spec fn is_digit(b: u8) -> bool {
    48 <= b && b <= 57
}

/// The byte sequence of the halt marker, the literal token `Halt`.
pub open spec fn halt_token() -> Seq<u8> {
    seq![72u8, 97u8, 108u8, 116u8]
}

/// The lines of `content`, split on newline bytes. `cur` accumulates
/// the line being read. A final line without a trailing newline still
/// counts; a trailing newline does not open a further empty line.
pub open spec fn lines_from(content: Seq<u8>, cur: Seq<u8>) -> Seq<Seq<u8>>
    decreases content.len(),
{
    if content.len() == 0 {
        if cur.len() == 0 {
            Seq::empty()
        } else {
            seq![cur]
        }
    } else if content[0] == 10 {
        seq![cur] + lines_from(content.drop_first(), Seq::empty())
    } else {
        lines_from(content.drop_first(), cur.push(content[0]))
    }
}

/// The lines of `content`.
pub open spec fn split_lines(content: Seq<u8>) -> Seq<Seq<u8>> {
    lines_from(content, Seq::empty())
}

/// A line with one trailing carriage return removed, so that files with
/// carriage-return line endings read the same as plain ones.
pub open spec fn line_body(line: Seq<u8>) -> Seq<u8> {
    if line.len() > 0 && line.last() == 13 {
        line.drop_last()
    } else {
        line
    }
}

/// The whitespace-separated tokens of `line`, accumulated left to
/// right; `cur` is the token currently being read.
pub open spec fn tokens_from(line: Seq<u8>, cur: Seq<u8>) -> Seq<Seq<u8>>
    decreases line.len(),
{
    if line.len() == 0 {
        if cur.len() == 0 {
            Seq::empty()
        } else {
            seq![cur]
        }
    } else if is_space(line[0]) {
        if cur.len() == 0 {
            tokens_from(line.drop_first(), Seq::empty())
        } else {
            seq![cur] + tokens_from(line.drop_first(), Seq::empty())
        }
    } else {
        tokens_from(line.drop_first(), cur.push(line[0]))
    }
}

/// The whitespace-separated tokens of `line`.
pub open spec fn tokens(line: Seq<u8>) -> Seq<Seq<u8>> {
    tokens_from(line, Seq::empty())
}

/// The value of a digit string read as decimal.
pub open spec fn decimal_value(t: Seq<u8>) -> int
    decreases t.len(),
{
    if t.len() == 0 {
        0
    } else {
        decimal_value(t.drop_last()) * 10 + (t.last() - 48)
    }
}

/// Whether every byte of `t` is a decimal digit.
pub open spec fn all_digits(t: Seq<u8>) -> bool {
    forall|i: int| 0 <= i < t.len() ==> is_digit(#[trigger] t[i])
}

/// The symbol a token denotes: one or more decimal digits whose value
/// fits in a byte. Anything else is not a symbol.
pub open spec fn symbol_of(t: Seq<u8>) -> Option<u8> {
    if t.len() > 0 && all_digits(t) && decimal_value(t) <= 255 {
        Some(decimal_value(t) as u8)
    } else {
        None
    }
}

/// The direction a token denotes: exactly `L` or `R`.
pub open spec fn direction_of(t: Seq<u8>) -> Option<Direction> {
    if t == seq![76u8] {
        Some(Direction::Left)
    } else if t == seq![82u8] {
        Some(Direction::Right)
    } else {
        None
    }
}

/// Once a digit prefix exceeds the largest symbol value, no digit
/// extension of it comes back into range.
proof fn lemma_decimal_grows(t: Seq<u8>, k: int)
    requires
        0 <= k <= t.len(),
        all_digits(t),
        decimal_value(t.take(k)) > 255,
    ensures
        decimal_value(t) > 255,
    decreases t.len() - k,
{
    if k == t.len() {
        assert(t.take(k) =~= t);
    } else {
        assert(t.take(k + 1).drop_last() =~= t.take(k));
        assert(t.take(k + 1).last() == t[k]);
        assert(is_digit(t[k]));
        lemma_decimal_grows(t, k + 1);
    }
}

/// Splits `content` into its lines.
pub fn split_into_lines(content: &[u8]) -> (r: Vec<Vec<u8>>)
    ensures
        r.deep_view() == split_lines(content@),
{
    let mut out: Vec<Vec<u8>> = Vec::new();
    let mut cur: Vec<u8> = Vec::new();
    let mut i: usize = 0;
    proof {
        assert(content@.skip(0) =~= content@);
        assert(out.deep_view() + lines_from(content@, cur@) =~= lines_from(content@, cur@));
    }
    while i < content.len()
        invariant
            i <= content.len(),
            split_lines(content@) == out.deep_view() + lines_from(
                content@.skip(i as int),
                cur@,
            ),
        decreases content.len() - i,
    {
        let b = content[i];
        proof {
            assert(content@.skip(i as int).drop_first() =~= content@.skip(i as int + 1));
            assert(content@.skip(i as int)[0] == content@[i as int]);
        }
        if b == 10 {
            let ghost prev = out.deep_view();
            let ghost line = cur@;
            out.push(cur);
            cur = Vec::new();
            proof {
                assert(out.deep_view() =~~= prev + seq![line]);
                assert(prev + seq![line] + lines_from(content@.skip(i as int + 1), cur@)
                    =~= prev + (seq![line] + lines_from(content@.skip(i as int + 1), cur@)));
            }
        } else {
            cur.push(b);
        }
        i = i + 1;
    }
    proof {
        assert(content@.skip(i as int) =~= Seq::<u8>::empty());
    }
    if cur.len() > 0 {
        let ghost prev = out.deep_view();
        let ghost line = cur@;
        out.push(cur);
        proof {
            assert(out.deep_view() =~~= prev + seq![line]);
        }
    } else {
        proof {
            assert(out.deep_view() + Seq::<Seq<u8>>::empty() =~= out.deep_view());
        }
    }
    out
}

/// Splits a line into its whitespace-separated tokens.
pub fn tokenize(line: &[u8]) -> (r: Vec<Vec<u8>>)
    ensures
        r.deep_view() == tokens(line@),
{
    let mut out: Vec<Vec<u8>> = Vec::new();
    let mut cur: Vec<u8> = Vec::new();
    let mut i: usize = 0;
    proof {
        assert(line@.skip(0) =~= line@);
        assert(out.deep_view() + tokens_from(line@, cur@) =~= tokens_from(line@, cur@));
    }
    while i < line.len()
        invariant
            i <= line.len(),
            tokens(line@) == out.deep_view() + tokens_from(line@.skip(i as int), cur@),
        decreases line.len() - i,
    {
        let b = line[i];
        proof {
            assert(line@.skip(i as int).drop_first() =~= line@.skip(i as int + 1));
            assert(line@.skip(i as int)[0] == line@[i as int]);
        }
        if b == 32 || b == 9 || b == 13 {
            if cur.len() > 0 {
                let ghost prev = out.deep_view();
                let ghost tok = cur@;
                out.push(cur);
                cur = Vec::new();
                proof {
                    assert(out.deep_view() =~~= prev + seq![tok]);
                    assert(tokens_from(line@.skip(i as int), tok)
                        == seq![tok] + tokens_from(line@.skip(i as int + 1), cur@));
                    assert(prev + seq![tok] + tokens_from(line@.skip(i as int + 1), cur@)
                        =~= prev + (seq![tok] + tokens_from(line@.skip(i as int + 1), cur@)));
                    assert(tokens(line@) == out.deep_view() + tokens_from(
                        line@.skip(i as int + 1), cur@));
                }
            } else {
                proof {
                    assert(cur@ =~= Seq::<u8>::empty());
                    assert(tokens_from(line@.skip(i as int), cur@)
                        == tokens_from(line@.skip(i as int + 1), cur@));
                }
            }
        } else {
            let ghost prevcur = cur@;
            cur.push(b);
            proof {
                assert(tokens_from(line@.skip(i as int), prevcur)
                    == tokens_from(line@.skip(i as int + 1), cur@));
            }
        }
        i = i + 1;
    }
    proof {
        assert(line@.skip(i as int) =~= Seq::<u8>::empty());
    }
    if cur.len() > 0 {
        let ghost prev = out.deep_view();
        let ghost tok = cur@;
        out.push(cur);
        proof {
            assert(out.deep_view() =~~= prev + seq![tok]);
        }
    } else {
        proof {
            assert(out.deep_view() + Seq::<Seq<u8>>::empty() =~= out.deep_view());
        }
    }
    out
}

/// Reads a symbol token.
pub fn parse_symbol(t: &[u8]) -> (r: Option<u8>)
    ensures
        r == symbol_of(t@),
{
    if t.len() == 0 {
        return None;
    }
    let mut acc: u32 = 0;
    let mut i: usize = 0;
    while i < t.len()
        invariant
            i <= t.len(),
            all_digits(t@.take(i as int)),
            acc == decimal_value(t@.take(i as int)),
            acc <= 255,
        decreases t.len() - i,
    {
        let b = t[i];
        if b < 48 || b > 57 {
            proof {
                assert(!is_digit(t@[i as int]));
            }
            return None;
        }
        proof {
            assert(t@.take(i as int + 1).drop_last() =~= t@.take(i as int));
            assert(t@.take(i as int + 1).last() == t@[i as int]);
        }
        acc = acc * 10 + ((b - 48) as u32);
        if acc > 255 {
            proof {
                if all_digits(t@) {
                    lemma_decimal_grows(t@, i as int + 1);
                }
            }
            return None;
        }
        i = i + 1;
    }
    proof {
        assert(t@.take(i as int) =~= t@);
    }
    Some(acc as u8)
}

/// Reads a direction token.
pub fn parse_direction(t: &[u8]) -> (r: Option<Direction>)
    ensures
        r == direction_of(t@),
{
    if t.len() == 1 {
        let b = t[0];
        if b == 76 {
            proof {
                assert(t@ =~= seq![76u8]);
            }
            return Some(Direction::Left);
        }
        if b == 82 {
            proof {
                assert(t@ =~= seq![82u8]);
            }
            return Some(Direction::Right);
        }
        proof {
            assert(t@[0] != 76u8 && t@[0] != 82u8);
            assert(t@ != seq![76u8] && t@ != seq![82u8]) by {
                assert(seq![76u8][0] == 76u8 && seq![82u8][0] == 82u8);
            }
        }
        return None;
    }
    proof {
        assert(seq![76u8].len() == 1 && seq![82u8].len() == 1);
    }
    None
}

/// Whether `t` is the halt marker.
pub fn is_halt_token(t: &[u8]) -> (r: bool)
    ensures
        r == (t@ == halt_token()),
{
    if t.len() == 4 && t[0] == 72 && t[1] == 97 && t[2] == 108 && t[3] == 116 {
        proof {
            assert(t@ =~= halt_token());
        }
        true
    } else {
        proof {
            if t@ == halt_token() {
                assert(t@.len() == 4);
                assert(t@[0] == 72u8 && t@[1] == 97u8 && t@[2] == 108u8 && t@[3] == 116u8);
            }
        }
        false
    }
}

/// Whether two byte strings are equal.
pub fn bytes_eq(a: &[u8], b: &[u8]) -> (r: bool)
    ensures
        r == (a@ == b@),
{
    if a.len() != b.len() {
        return false;
    }
    let mut i: usize = 0;
    while i < a.len()
        invariant
            i <= a.len(),
            a.len() == b.len(),
            forall|j: int| 0 <= j < i ==> a@[j] == b@[j],
        decreases a.len() - i,
    {
        if a[i] != b[i] {
            return false;
        }
        i = i + 1;
    }
    proof {
        assert(a@ =~= b@);
    }
    true
}

} // verus!
