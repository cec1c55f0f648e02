//! Reading one line of a puzzle's text.
//!
//! A line whose first character is `#` is a comment. Every other line
//! describes one car in four words: `x`, `y`, the axis, and the length.

use crate::car::{Car, Plan};
use crate::lexer::{chars_of, lemma_blank_line_has_no_words, split_words, white_space, words};
use crate::number::{number, parse_number};
use vstd::prelude::*;

verus! {

/// Why a line could not be read.
#[derive(Clone, Copy, Debug, PartialEq, Eq, Structural)]
pub enum Fault {
    /// The line is no comment and does not have exactly four words.
    MalformedLine,
    /// The line has four words, but `x`, `y` or the length is not a number
    /// that fits in a `u8`.
    NumericParseFailure,
}

/// Whether `line` is a comment: its first character is `#`.
pub open spec fn is_comment(line: Seq<char>) -> bool {
    line.len() > 0 && line[0] == '#'
}

/// The letters of the word that marks a vertical car.
pub open spec fn vertical_word() -> Seq<char> {
    seq!['v', 'e', 'r', 't', 'i', 'c', 'a', 'l']
}

/// The axis that `word` names: vertical for the exact word `vertical`,
/// horizontal for every other word.
pub open spec fn plan_of(word: Seq<char>) -> Plan {
    if word == vertical_word() {
        Plan::Vertical
    } else {
        Plan::Horizontal
    }
}

/// What `line` holds: nothing for a comment, a car for a well-formed
/// line, and otherwise the reason why it cannot be read.
pub open spec fn record(line: Seq<char>) -> Result<Option<Car>, Fault> {
    let w = words(line);
    if is_comment(line) {
        Ok(None)
    } else if w.len() != 4 {
        Err(Fault::MalformedLine)
    } else {
        match (number(w[0]), number(w[1]), number(w[3])) {
            (Some(x), Some(y), Some(length)) => Ok(
                Some(Car { x: x, y: y, length: length, plan: plan_of(w[2]) }),
            ),
            _ => Err(Fault::NumericParseFailure),
        }
    }
}

/// A line of white space alone, the empty line among them, is malformed:
/// it is no comment and has no words.
pub proof fn lemma_blank_line_is_malformed(line: Seq<char>)
    requires
        forall|i: int| 0 <= i < line.len() ==> white_space(#[trigger] line[i]),
    ensures
        record(line) == Err::<Option<Car>, Fault>(Fault::MalformedLine),
{
    lemma_blank_line_has_no_words(line);
    if line.len() > 0 {
        assert(white_space(line[0]));
    }
}

/// Reads the axis that `word` names.
pub fn parse_plan(word: &Vec<char>) -> (plan: Plan)
    ensures
        plan == plan_of(word@),
{
    let vertical = word.len() == 8 && word[0] == 'v' && word[1] == 'e' && word[2] == 'r'
        && word[3] == 't' && word[4] == 'i' && word[5] == 'c' && word[6] == 'a' && word[7]
        == 'l';
    if vertical {
        assert(word@ =~= vertical_word());
        Plan::Vertical
    } else {
        Plan::Horizontal
    }
}

/// Reads one line.
pub fn parse_line(line: &str) -> (r: Result<Option<Car>, Fault>)
    ensures
        r == record(line@),
{
    let chars = chars_of(line);
    if chars.len() > 0 && chars[0] == '#' {
        return Ok(None);
    }
    let w = split_words(&chars);
    if w.len() != 4 {
        return Err(Fault::MalformedLine);
    }
    let x = parse_number(&w[0]);
    let y = parse_number(&w[1]);
    let plan = parse_plan(&w[2]);
    let length = parse_number(&w[3]);
    match (x, y, length) {
        (Some(x), Some(y), Some(length)) => Ok(
            Some(Car { x: x, y: y, length: length, plan: plan }),
        ),
        _ => Err(Fault::NumericParseFailure),
    }
}

} // verus!
