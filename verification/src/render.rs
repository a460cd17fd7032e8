//! The game drawn as text: a framed grid, one glyph per cell, and the score.

use vstd::prelude::*;
use vstd::string::StringExecFns;
use crate::game::{occupies, Game, GameState};
use crate::position::Position;

verus! {

/// The decimal digit `d`.
pub open spec fn digit(d: int) -> Seq<char> {
    if d == 0 {
        "0"@
    } else if d == 1 {
        "1"@
    } else if d == 2 {
        "2"@
    } else if d == 3 {
        "3"@
    } else if d == 4 {
        "4"@
    } else if d == 5 {
        "5"@
    } else if d == 6 {
        "6"@
    } else if d == 7 {
        "7"@
    } else if d == 8 {
        "8"@
    } else {
        "9"@
    }
}

/// `n` in decimal, without leading zeros.
pub open spec fn decimal(n: nat) -> Seq<char>
    decreases n,
{
    if n < 10 {
        digit(n as int)
    } else {
        decimal(n / 10) + digit((n % 10) as int)
    }
}

/// `count` copies of `piece`, one after the other.
pub open spec fn repeated(piece: Seq<char>, count: nat) -> Seq<char>
    decreases count,
{
    if count == 0 {
        Seq::empty()
    } else {
        repeated(piece, (count - 1) as nat) + piece
    }
}

/// The three characters that stand for the cell `cell`: the head, else the
/// food, else a cell of the body, else blank.
pub open spec fn glyph(s: GameState, cell: Position) -> Seq<char> {
    if cell == s.head() {
        " \u{25A1} "@
    } else if cell == s.food {
        " \u{2022} "@
    } else if s.body.contains(cell) {
        " \u{25A0} "@
    } else {
        "   "@
    }
}

/// The first `count` cells of row `y`.
pub open spec fn row_text(s: GameState, y: int, count: nat) -> Seq<char>
    decreases count,
{
    if count == 0 {
        Seq::empty()
    } else {
        row_text(s, y, (count - 1) as nat) + glyph(
            s,
            Position { x: (count - 1) as isize, y: y as isize },
        )
    }
}

/// The first `count` rows, each after a line break between two bars.
pub open spec fn rows_text(s: GameState, count: nat) -> Seq<char>
    decreases count,
{
    if count == 0 {
        Seq::empty()
    } else {
        rows_text(s, (count - 1) as nat) + "|\n|"@ + row_text(s, count - 1, s.size as nat)
    }
}

/// The whole picture: the top rule, the rows, the bottom rule and the score.
pub open spec fn rendering(s: GameState) -> Seq<char> {
    "|"@ + repeated("---"@, s.size as nat) + rows_text(s, s.size as nat) + "|\n|"@ + repeated(
        "---"@,
        s.size as nat,
    ) + "|\n"@ + "Score: "@ + decimal(s.score)
}

/// The text of one decimal digit.
fn digit_text(d: usize) -> (text: &'static str)
    requires
        d < 10,
    ensures
        text@ == digit(d as int),
{
    if d == 0 {
        "0"
    } else if d == 1 {
        "1"
    } else if d == 2 {
        "2"
    } else if d == 3 {
        "3"
    } else if d == 4 {
        "4"
    } else if d == 5 {
        "5"
    } else if d == 6 {
        "6"
    } else if d == 7 {
        "7"
    } else if d == 8 {
        "8"
    } else {
        "9"
    }
}

/// `n` in decimal, without leading zeros.
pub fn decimal_text(n: usize) -> (text: String)
    ensures
        text@ == decimal(n as nat),
    decreases n,
{
    if n < 10 {
        String::from_str(digit_text(n))
    } else {
        let mut text = decimal_text(n / 10);
        text.append(digit_text(n % 10));
        text
    }
}

/// A rule of `count` dashes-of-three.
fn rule_text(count: isize) -> (text: String)
    requires
        0 <= count,
    ensures
        text@ == repeated("---"@, count as nat),
{
    let mut text = String::new();
    let mut i: isize = 0;
    while i < count
        invariant
            0 <= i <= count,
            text@ == repeated("---"@, i as nat),
        decreases count - i,
    {
        text.append("---");
        i += 1;
    }
    text
}

impl Game {
    /// The glyph of one cell.
    fn glyph_text(&self, cell: Position) -> (text: &'static str)
        requires
            self@.body.len() >= 1,
        ensures
            text@ == glyph(self@, cell),
    {
        if cell == self.head() {
            " \u{25A1} "
        } else if cell == self.food() {
            " \u{2022} "
        } else if occupies(self.snake(), cell) {
            " \u{25A0} "
        } else {
            "   "
        }
    }

    /// The cells of row `y`.
    fn row(&self, y: isize) -> (text: String)
        requires
            self@.body.len() >= 1,
            0 <= self@.size,
        ensures
            text@ == row_text(self@, y as int, self@.size as nat),
    {
        let size = self.size();
        let mut text = String::new();
        let mut x: isize = 0;
        while x < size
            invariant
                0 <= x <= size,
                size == self@.size,
                self@.body.len() >= 1,
                text@ == row_text(self@, y as int, x as nat),
            decreases size - x,
        {
            text.append(self.glyph_text(Position::new(x, y)));
            x += 1;
        }
        text
    }

    /// The game drawn as text.
    pub fn display(&self) -> (text: String)
        requires
            self@.wf(),
        ensures
            text@ == rendering(self@),
    {
        let size = self.size();
        let rule = rule_text(size);
        let mut out = String::from_str("|");
        out.append(rule.as_str());
        let ghost top = out@;
        let mut y: isize = 0;
        while y < size
            invariant
                0 <= y <= size,
                size == self@.size,
                self@.body.len() >= 1,
                out@ == top + rows_text(self@, y as nat),
            decreases size - y,
        {
            let row = self.row(y);
            out.append("|\n|");
            out.append(row.as_str());
            assert(out@ =~= top + (rows_text(self@, y as nat) + "|\n|"@ + row@));
            y += 1;
        }
        out.append("|\n|");
        out.append(rule.as_str());
        out.append("|\n");
        out.append("Score: ");
        let score = decimal_text(self.score());
        out.append(score.as_str());
        out
    }
}

} // verus!
