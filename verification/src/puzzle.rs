//! The puzzle: a list of cars, read from text and drawn as a diagram.

use crate::car::Car;
use crate::record::{is_comment, parse_line, record, Fault};
use vstd::prelude::*;

verus! {

/// The first line that could not be read.
#[derive(Clone, Debug, PartialEq, Eq)]
pub struct ParseError {
    /// Why the line could not be read.
    pub kind: Fault,
    /// The position of the line in the input, counted from zero.
    pub index: usize,
    /// The line as it was given.
    pub text: String,
}

/// A puzzle: its cars, in the order in which the input lists them.
///
/// Cars may overlap and may lie partly or wholly off the board.
#[derive(Clone, Debug, PartialEq, Eq)]
pub struct Puzzle {
    pub cars: Vec<Car>,
}

impl View for Puzzle {
    type V = Seq<Car>;

    open spec fn view(&self) -> Seq<Car> {
        self.cars@
    }
}

/// The character sequences that a list of lines holds.
pub open spec fn line_texts(lines: Seq<String>) -> Seq<Seq<char>> {
    lines.map_values(|s: String| s@)
}

/// The car that `line` describes, where it describes one.
pub open spec fn piece(line: Seq<char>) -> Option<Car> {
    match record(line) {
        Ok(Some(car)) => Some(car),
        _ => None,
    }
}

/// The cars that `lines` describe, in order; comments give none.
pub open spec fn cars_of(lines: Seq<Seq<char>>) -> Seq<Car> {
    lines.filter_map(|line: Seq<char>| piece(line))
}

/// Whether every line of `lines` can be read.
pub open spec fn well_formed(lines: Seq<Seq<char>>) -> bool {
    forall|i: int| 0 <= i < lines.len() ==> (#[trigger] record(lines[i])) is Ok
}

/// The number of rows, and of columns, of the board.
pub const BOARD_SIZE: u8 = 6;

/// Whether some car of `cars` covers the cell `(x, y)`.
pub open spec fn occupied(cars: Seq<Car>, x: int, y: int) -> bool {
    exists|i: int| 0 <= i < cars.len() && (#[trigger] cars[i]).covers(x, y)
}

/// The character drawn for the cell `(x, y)`: `x` where a car covers it,
/// a space where none does.
pub open spec fn mark(cars: Seq<Car>, x: int, y: int) -> char {
    if occupied(cars, x, y) {
        'x'
    } else {
        ' '
    }
}

/// The marks of the cells `(0, y)` to `(n - 1, y)`, from left to right.
pub open spec fn marks(cars: Seq<Car>, y: int, n: int) -> Seq<char> {
    Seq::new(n as nat, |x: int| mark(cars, x, y))
}

/// Row `y` of the diagram: its six marks between two bars.
pub open spec fn row(cars: Seq<Car>, y: int) -> Seq<char> {
    seq!['|'] + marks(cars, y, BOARD_SIZE as int) + seq!['|']
}

/// The rows `0` to `n - 1` of the diagram, each followed by a line break.
pub open spec fn rows(cars: Seq<Car>, n: int) -> Seq<char>
    decreases n,
{
    if n <= 0 {
        Seq::empty()
    } else {
        rows(cars, n - 1) + row(cars, n - 1) + seq!['\n']
    }
}

/// The border line above and below the rows.
pub open spec fn border() -> Seq<char> {
    seq!['|', '-', '-', '-', '-', '-', '-', '|']
}

/// The diagram of `cars`: the border, the six rows from top to bottom,
/// and the border again, followed by one space. Line breaks separate the
/// eight lines; none follows the last.
pub open spec fn board(cars: Seq<Car>) -> Seq<char> {
    border() + seq!['\n'] + rows(cars, BOARD_SIZE as int) + border() + seq![' ']
}

impl Puzzle {
    /// Reads a puzzle from the lines of its text.
    ///
    /// Succeeds exactly when every line can be read, and then holds the
    /// cars of the lines that are no comments, in input order. Otherwise
    /// the error names the first line that cannot be read, with the
    /// reason and the line's text; no puzzle is returned.
    pub fn parse(lines: &Vec<String>) -> (r: Result<Puzzle, ParseError>)
        ensures
            r is Ok <==> well_formed(line_texts(lines@)),
            match r {
                Ok(puzzle) => puzzle@ == cars_of(line_texts(lines@)),
                Err(e) => {
                    &&& e.index < lines.len()
                    &&& well_formed(line_texts(lines@).take(e.index as int))
                    &&& record(lines[e.index as int]@) == Err::<Option<Car>, Fault>(e.kind)
                    &&& e.text@ == lines[e.index as int]@
                },
            },
    {
        let ghost all = line_texts(lines@);
        let mut cars: Vec<Car> = Vec::new();
        let mut i: usize = 0;
        while i < lines.len()
            invariant
                i <= lines.len(),
                all == line_texts(lines@),
                well_formed(all.take(i as int)),
                cars@ == cars_of(all.take(i as int)),
            decreases lines.len() - i,
        {
            let line = &lines[i];
            proof {
                all.lemma_filter_map_take_succ(|line: Seq<char>| piece(line), i as int);
            }
            match parse_line(line.as_str()) {
                Ok(Some(car)) => {
                    cars.push(car);
                },
                Ok(None) => {},
                Err(kind) => {
                    return Err(ParseError { kind: kind, index: i, text: line.clone() });
                },
            }
            assert forall|k: int| 0 <= k < i + 1 implies (#[trigger] record(
                all.take(i + 1)[k],
            )) is Ok by {
                if k < i {
                    assert(all.take(i + 1)[k] == all.take(i as int)[k]);
                }
            }
            i += 1;
        }
        assert(all.take(i as int) =~= all);
        Ok(Puzzle { cars: cars })
    }

    /// Tests whether some car of the puzzle covers the cell `(x, y)`.
    pub fn any_parked_on(&self, x: u8, y: u8) -> (hit: bool)
        ensures
            hit == occupied(self@, x as int, y as int),
    {
        let mut i: usize = 0;
        while i < self.cars.len()
            invariant
                i <= self.cars.len(),
                forall|k: int| 0 <= k < i ==> !(#[trigger] self.cars@[k]).covers(x as int, y as int),
            decreases self.cars.len() - i,
        {
            if self.cars[i].parked_on(x, y) {
                return true;
            }
            i += 1;
        }
        false
    }

    /// Draws the puzzle as a text diagram.
    ///
    /// The result depends on the cars alone. Parts of cars that lie off
    /// the board are not drawn.
    pub fn render(&self) -> (text: String)
        ensures
            text@ == board(self@),
    {
        let mut text = String::new();
        proof {
            reveal_strlit("|------|\n");
            reveal_strlit("|------| ");
        }
        text.append("|------|\n");
        let mut y: u8 = 0;
        while y < BOARD_SIZE
            invariant
                y <= BOARD_SIZE,
                text@ == border() + seq!['\n'] + rows(self@, y as int),
            decreases BOARD_SIZE - y,
        {
            let ghost head = text@;
            proof {
                reveal_strlit("|");
                reveal_strlit("|\n");
            }
            text.append("|");
            let mut x: u8 = 0;
            while x < BOARD_SIZE
                invariant
                    x <= BOARD_SIZE,
                    y < BOARD_SIZE,
                    text@ == head + seq!['|'] + marks(self@, y as int, x as int),
                decreases BOARD_SIZE - x,
            {
                proof {
                    reveal_strlit("x");
                    reveal_strlit(" ");
                }
                if self.any_parked_on(x, y) {
                    text.append("x");
                } else {
                    text.append(" ");
                }
                x += 1;
                assert(text@ =~= head + seq!['|'] + marks(self@, y as int, x as int));
            }
            text.append("|\n");
            y += 1;
            assert(text@ =~= head + row(self@, y - 1) + seq!['\n']);
        }
        text.append("|------| ");
        text
    }
}

/// The diagram of a board without cars.
pub open spec fn blank_board() -> Seq<char> {
    "|------|\n|      |\n|      |\n|      |\n|      |\n|      |\n|      |\n|------| "@
}

/// Where no car covers a cell of row `y`, the row is six spaces between
/// two bars.
pub proof fn lemma_blank_row(cars: Seq<Car>, y: int)
    requires
        forall|x: int| 0 <= x < BOARD_SIZE ==> !occupied(cars, x, y),
    ensures
        row(cars, y) == seq!['|', ' ', ' ', ' ', ' ', ' ', ' ', '|'],
{
    assert(row(cars, y) =~= seq!['|', ' ', ' ', ' ', ' ', ' ', ' ', '|']);
}

/// Input that holds comments only is read without error, gives a puzzle
/// without cars, and that puzzle is drawn as the blank board.
pub proof fn lemma_comments_give_blank_board(lines: Seq<Seq<char>>)
    requires
        forall|i: int| 0 <= i < lines.len() ==> is_comment(#[trigger] lines[i]),
    ensures
        well_formed(lines),
        cars_of(lines) == Seq::<Car>::empty(),
        board(cars_of(lines)) == blank_board(),
    decreases lines.len(),
{
    let none = Seq::<Car>::empty();
    if lines.len() > 0 {
        lemma_comments_give_blank_board(lines.drop_last());
        assert(piece(lines.last()) is None);
    }
    assert(cars_of(lines) =~= none);
    lemma_blank_row(none, 0);
    lemma_blank_row(none, 1);
    lemma_blank_row(none, 2);
    lemma_blank_row(none, 3);
    lemma_blank_row(none, 4);
    lemma_blank_row(none, 5);
    reveal_with_fuel(rows, 7);
    reveal_strlit("|------|\n|      |\n|      |\n|      |\n|      |\n|      |\n|      |\n|------| ");
    assert(board(none) =~= blank_board());
}

/// Drawing depends on the cars alone: two texts that each are the diagram
/// of one puzzle are the same text.
pub proof fn lemma_render_repeatable(puzzle: Puzzle, first: String, second: String)
    requires
        first@ == board(puzzle@),
        second@ == board(puzzle@),
    ensures
        first@ == second@,
{
}

/// The diagram depends only on which cells of the board are covered:
/// neither the order of the cars, nor overlaps, nor what lies off the
/// board changes it.
pub proof fn lemma_board_depends_on_cover(a: Seq<Car>, b: Seq<Car>)
    requires
        forall|x: int, y: int|
            0 <= x < BOARD_SIZE && 0 <= y < BOARD_SIZE ==> occupied(a, x, y) == occupied(b, x, y),
    ensures
        board(a) == board(b),
{
    assert forall|n: int| 0 <= n <= BOARD_SIZE implies rows(a, n) == rows(b, n) by {
        lemma_rows_depend_on_cover(a, b, n);
    }
}

proof fn lemma_rows_depend_on_cover(a: Seq<Car>, b: Seq<Car>, n: int)
    requires
        0 <= n <= BOARD_SIZE,
        forall|x: int, y: int|
            0 <= x < BOARD_SIZE && 0 <= y < BOARD_SIZE ==> occupied(a, x, y) == occupied(b, x, y),
    ensures
        rows(a, n) == rows(b, n),
    decreases n,
{
    if n > 0 {
        lemma_rows_depend_on_cover(a, b, n - 1);
        assert(marks(a, n - 1, BOARD_SIZE as int) =~= marks(b, n - 1, BOARD_SIZE as int));
    }
}

} // verus!
