use vstd::prelude::*;

verus! {

/// A location inside the input text: 1-based line and column and the
/// 0-based index of the character.
#[derive(Clone, Copy, Debug, PartialEq, Eq, Structural)]
pub struct Position {
    pub line: u32,
    pub column: u32,
    pub index: usize,
}

/// A half-open range over the input text.
#[derive(Clone, Copy, Debug, PartialEq, Eq, Structural)]
pub struct Span {
    pub start: Position,
    pub end: Position,
}

/// The line (1-based) on which the character at index `i` of `s` stands:
/// one more than the number of line feeds before it.
pub open spec fn line_at(s: Seq<char>, i: int) -> int
    decreases i,
{
    if i <= 0 {
        1
    } else if s[i - 1] == '\n' {
        line_at(s, i - 1) + 1
    } else {
        line_at(s, i - 1)
    }
}

/// The column (1-based) of the character at index `i` of `s`: the count of
/// characters since the latest line feed, plus one.
pub open spec fn col_at(s: Seq<char>, i: int) -> int
    decreases i,
{
    if i <= 0 {
        1
    } else if s[i - 1] == '\n' {
        1
    } else {
        col_at(s, i - 1) + 1
    }
}

/// The position of character index `i` in the text `s`.
pub open spec fn pos_at_spec(s: Seq<char>, i: int) -> Position {
    Position { line: line_at(s, i) as u32, column: col_at(s, i) as u32, index: i as usize }
}

/// The span that covers `s[i..j]`.
pub open spec fn span_at(s: Seq<char>, i: int, j: int) -> Span {
    Span { start: pos_at_spec(s, i), end: pos_at_spec(s, j) }
}

/// Lines and columns stay between 1 and `i + 1`.
pub proof fn lemma_pos_bounds(s: Seq<char>, i: int)
    requires
        0 <= i,
    ensures
        1 <= line_at(s, i) <= i + 1,
        1 <= col_at(s, i) <= i + 1,
    decreases i,
{
    if i > 0 {
        lemma_pos_bounds(s, i - 1);
    }
}

impl Position {
    /// The starting position: line 1, column 1, index 0.
    pub fn new() -> (p: Position)
        ensures
            p == (Position { line: 1u32, column: 1u32, index: 0usize }),
    {
        Position { line: 1, column: 1, index: 0 }
    }
}

impl Default for Position {
    /// Same as `Position::new`.
    fn default() -> (p: Position)
        ensures
            p == (Position { line: 1u32, column: 1u32, index: 0usize }),
    {
        Position { line: 1, column: 1, index: 0 }
    }
}

impl Default for Span {
    /// An empty span at the starting position.
    fn default() -> (sp: Span)
        ensures
            sp == (Span {
                start: Position { line: 1u32, column: 1u32, index: 0usize },
                end: Position { line: 1u32, column: 1u32, index: 0usize },
            }),
    {
        Span { start: Position::new(), end: Position::new() }
    }
}

/// Compute the position of character index `i` in `s` by walking the text.
pub fn pos_at(s: &str, i: usize) -> (p: Position)
    requires
        i <= s@.len(),
        s@.len() < u32::MAX,
    ensures
        p == pos_at_spec(s@, i as int),
{
    let mut line: u32 = 1;
    let mut column: u32 = 1;
    let mut j: usize = 0;
    while j < i
        invariant
            j <= i <= s@.len(),
            s@.len() < u32::MAX,
            line == line_at(s@, j as int),
            column == col_at(s@, j as int),
        decreases i - j,
    {
        proof {
            lemma_pos_bounds(s@, j + 1);
        }
        let c = s.get_char(j);
        if c == '\n' {
            line = line + 1;
            column = 1;
        } else {
            column = column + 1;
        }
        j = j + 1;
    }
    Position { line, column, index: i }
}

} // verus!
