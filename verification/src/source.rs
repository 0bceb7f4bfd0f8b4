//! The program grid: source text parsed into a padded matrix of instructions.
//!
//! Newlines split the text into rows. Every content row is preceded by two
//! left-wall sentinel cells, the whole grid by two rows of up-wall cells
//! above and two rows of down-wall cells below, each as wide as the longest
//! row; reading past the right end of a row yields a right-wall sentinel.
//! The walls let the interpreter fetch a cell at every counter position the
//! walk can reach, with wrap-around encoded in the wall cells themselves.

use vstd::prelude::*;
use crate::instruction::COORDINATE_LIMIT;
use crate::instruction::Instruction;
use crate::instruction::InstructionMovement;
use crate::instruction::InterpreterDirection;
use crate::instruction::content_cell_wf;
use crate::instruction::instruction_for_char;
use crate::instruction::lemma_char_instruction_wf;
use crate::instruction::wall_instruction;

verus! {

/// Lines of a text, split on newline characters; the empty text is one empty
/// line, and a trailing newline opens a final empty line.
pub open spec fn split_lines(s: Seq<char>) -> Seq<Seq<char>>
    decreases s.len(),
{
    if s.len() == 0 {
        seq![Seq::<char>::empty()]
    } else if s[0] == '\n' {
        seq![Seq::<char>::empty()] + split_lines(s.drop_first())
    } else {
        let rest = split_lines(s.drop_first());
        seq![seq![s[0]] + rest[0]] + rest.drop_first()
    }
}

/// There is always at least one line; no line outgrows the text, nor does
/// the number of lines outgrow it by more than one.
pub proof fn lemma_split_lines_bounds(s: Seq<char>)
    ensures
        1 <= split_lines(s).len() <= s.len() + 1,
        forall|i: int| 0 <= i < split_lines(s).len() ==> #[trigger] split_lines(
            s,
        )[i].len() <= s.len(),
    decreases s.len(),
{
    if s.len() > 0 {
        lemma_split_lines_bounds(s.drop_first());
    }
}

/// Appending one character either opens a new empty line (a newline) or
/// extends the last line.
pub proof fn lemma_split_lines_snoc(s: Seq<char>, c: char)
    ensures
        split_lines(s.push(c)) == (if c == '\n' {
            split_lines(s).push(Seq::<char>::empty())
        } else {
            split_lines(s).update(
                split_lines(s).len() - 1,
                split_lines(s).last().push(c),
            )
        }),
    decreases s.len(),
{
    lemma_split_lines_bounds(s);
    let t = s.push(c);
    if s.len() == 0 {
        if c == '\n' {
            assert(t.drop_first() =~= Seq::<char>::empty());
            assert(split_lines(t) =~= split_lines(s).push(Seq::<char>::empty()));
        } else {
            assert(t.drop_first() =~= Seq::<char>::empty());
            assert(seq![t[0]] + split_lines(t.drop_first())[0] =~= split_lines(
                s,
            ).last().push(c));
            assert(split_lines(t) =~= split_lines(s).update(
                0,
                split_lines(s).last().push(c),
            ));
        }
    } else {
        assert(t.drop_first() =~= s.drop_first().push(c));
        lemma_split_lines_snoc(s.drop_first(), c);
        lemma_split_lines_bounds(s.drop_first());
        let rest = split_lines(s.drop_first());
        let trest = split_lines(t.drop_first());
        if s[0] == '\n' {
            if c == '\n' {
                assert(split_lines(t) =~= split_lines(s).push(Seq::<char>::empty()));
            } else {
                assert(split_lines(t) =~= split_lines(s).update(
                    split_lines(s).len() - 1,
                    split_lines(s).last().push(c),
                ));
            }
        } else {
            if c == '\n' {
                assert(trest.drop_first() =~= rest.drop_first().push(Seq::<char>::empty()));
                assert(split_lines(t) =~= split_lines(s).push(Seq::<char>::empty()));
            } else {
                if rest.len() == 1 {
                    assert(trest.drop_first() =~= rest.drop_first());
                    assert(seq![t[0]] + trest[0] =~= (seq![s[0]] + rest[0]).push(c));
                    assert(split_lines(t) =~= split_lines(s).update(
                        split_lines(s).len() - 1,
                        split_lines(s).last().push(c),
                    ));
                } else {
                    assert(trest.drop_first() =~= rest.drop_first().update(
                        rest.len() - 2,
                        rest.last().push(c),
                    ));
                    assert(seq![t[0]] + trest[0] =~= seq![s[0]] + rest[0]);
                    assert(split_lines(t) =~= split_lines(s).update(
                        split_lines(s).len() - 1,
                        split_lines(s).last().push(c),
                    ));
                }
            }
        }
    }
}

/// Length of the longest line.
pub open spec fn max_line_len(lines: Seq<Seq<char>>) -> int
    decreases lines.len(),
{
    if lines.len() == 0 {
        0
    } else {
        let m = max_line_len(lines.drop_last());
        if lines.last().len() > m {
            lines.last().len() as int
        } else {
            m
        }
    }
}

/// The longest line bounds every line, and the maximum is a line's length
/// (or zero).
pub proof fn lemma_max_line_len_bounds(lines: Seq<Seq<char>>)
    ensures
        0 <= max_line_len(lines),
        forall|i: int| 0 <= i < lines.len() ==> #[trigger] lines[i].len() <= max_line_len(
            lines,
        ),
        max_line_len(lines) == 0 || exists|i: int|
            0 <= i < lines.len() && #[trigger] lines[i].len() == max_line_len(lines),
    decreases lines.len(),
{
    if lines.len() > 0 {
        lemma_max_line_len_bounds(lines.drop_last());
        assert forall|i: int| 0 <= i < lines.len() implies #[trigger] lines[i].len()
            <= max_line_len(lines) by {
            if i < lines.len() - 1 {
                assert(lines[i] == lines.drop_last()[i]);
            }
        }
    }
}

/// The instructions of one line of source text.
pub open spec fn content_row(line: Seq<char>) -> Seq<Instruction> {
    line.map_values(|c: char| instruction_for_char(c))
}

/// A full-width row of identical wall cells.
pub open spec fn wall_row_spec(
    width: int,
    direction: InterpreterDirection,
    value: i64,
) -> Seq<Instruction> {
    Seq::new(width as nat, |i: int| wall_instruction(direction, value))
}

/// A content row: two left-wall cells, then the line's instructions.
pub open spec fn grid_row_spec(line: Seq<char>) -> Seq<Instruction> {
    let lw = wall_instruction(
        InterpreterDirection::Left,
        (line.len() + 1) as i64,
    );
    seq![lw, lw] + content_row(line)
}

/// The padded grid of a source text.
pub open spec fn grid_of_text(s: Seq<char>) -> Seq<Seq<Instruction>> {
    let lines = split_lines(s);
    let width = max_line_len(lines) + 2;
    let up = wall_row_spec(
        width,
        InterpreterDirection::Up,
        (lines.len() + 1) as i64,
    );
    let down = wall_row_spec(width, InterpreterDirection::Down, 2);
    seq![up, up] + lines.map_values(|l: Seq<char>| grid_row_spec(l)) + seq![down, down]
}

/// The cell at padded coordinates; at or past the right end of its row, the
/// right-wall sentinel.
pub open spec fn cell_at(g: Seq<Seq<Instruction>>, row: int, col: int) -> Instruction {
    if col >= g[row].len() {
        wall_instruction(InterpreterDirection::Right, 2)
    } else {
        g[row][col]
    }
}

/// A content row is well formed: its two left-wall cells carry the wrap
/// value matching its length, and everything after them came from a
/// character.
pub open spec fn content_row_wf(row: Seq<Instruction>, width: int) -> bool {
    &&& 2 <= row.len() <= width
    &&& row[0] == wall_instruction(InterpreterDirection::Left, (row.len() - 1) as i64)
    &&& row[1] == row[0]
    &&& forall|c: int| 2 <= c < row.len() ==> content_cell_wf(#[trigger] row[c])
}

/// A well-formed padded grid: two up-wall rows, the content rows, two
/// down-wall rows, all dimensions small enough for 64-bit coordinate
/// arithmetic.
pub open spec fn grid_wf(g: Seq<Seq<Instruction>>) -> bool {
    let rows = g.len() as int;
    let width = g[0].len() as int;
    &&& 5 <= rows <= COORDINATE_LIMIT as int
    &&& 2 <= width <= COORDINATE_LIMIT as int
    &&& g[0] == wall_row_spec(width, InterpreterDirection::Up, (rows - 3) as i64)
    &&& g[1] == g[0]
    &&& g[rows - 2] == wall_row_spec(width, InterpreterDirection::Down, 2)
    &&& g[rows - 1] == g[rows - 2]
    &&& forall|r: int| 2 <= r < rows - 2 ==> content_row_wf(#[trigger] g[r], width)
}

/// Parsing yields a well-formed grid, with one content row per line.
pub proof fn lemma_grid_of_text_wf(s: Seq<char>)
    requires
        s.len() + 5 <= COORDINATE_LIMIT as int,
    ensures
        grid_wf(grid_of_text(s)),
        grid_of_text(s).len() == split_lines(s).len() + 4,
        grid_of_text(s)[0].len() == max_line_len(split_lines(s)) + 2,
{
    let lines = split_lines(s);
    let g = grid_of_text(s);
    let width = max_line_len(lines) + 2;
    lemma_split_lines_bounds(s);
    lemma_max_line_len_bounds(lines);
    let up = wall_row_spec(width, InterpreterDirection::Up, (lines.len() + 1) as i64);
    let down = wall_row_spec(width, InterpreterDirection::Down, 2);
    let mid = lines.map_values(|l: Seq<char>| grid_row_spec(l));
    assert(g.len() == lines.len() + 4);
    assert(g[0] == up);
    assert(g[1] == up);
    assert(g[g.len() - 2] == down);
    assert(g[g.len() - 1] == down);
    assert(g[0].len() == width);
    assert forall|r: int| 2 <= r < g.len() - 2 implies content_row_wf(#[trigger] g[r], width) by {
        assert(g[r] == mid[r - 2]);
        let line = lines[r - 2];
        assert(g[r] == grid_row_spec(line));
        assert(line.len() <= max_line_len(lines));
        assert(g[r].len() == line.len() + 2);
        assert(g[r][0] == wall_instruction(
            InterpreterDirection::Left,
            (line.len() + 1) as i64,
        ));
        assert(g[r][1] == g[r][0]);
        assert forall|c: int| 2 <= c < g[r].len() implies content_cell_wf(
            #[trigger] g[r][c],
        ) by {
            assert(g[r][c] == instruction_for_char(line[c - 2]));
            lemma_char_instruction_wf(line[c - 2]);
        }
    }
}

/// A parsed program: the padded grid.
pub struct Source {
    map: Vec<Vec<Instruction>>,
}

impl View for Source {
    type V = Seq<Seq<Instruction>>;

    closed spec fn view(&self) -> Seq<Seq<Instruction>> {
        self.map@.map_values(|row: Vec<Instruction>| row@)
    }
}

/// A full-width row of identical wall cells.
fn make_wall_row(width: usize, direction: InterpreterDirection, value: i64) -> (r: Vec<
    Instruction,
>)
    requires
        -COORDINATE_LIMIT <= value <= COORDINATE_LIMIT,
    ensures
        r@ == wall_row_spec(width as int, direction, value),
{
    let mut row: Vec<Instruction> = Vec::new();
    for _i in 0..width
        invariant
            row@.len() == _i,
            forall|k: int| 0 <= k < row@.len() ==> row@[k] == wall_instruction(
                direction,
                value,
            ),
            -COORDINATE_LIMIT <= value <= COORDINATE_LIMIT,
    {
        row.push(Instruction::from_wall_data(direction, value));
    }
    proof {
        assert(row@ =~= wall_row_spec(width as int, direction, value));
    }
    row
}

/// Append an instruction to the last row.
fn push_cell(rows: &mut Vec<Vec<Instruction>>, inst: Instruction)
    requires
        old(rows)@.len() > 0,
    ensures
        final(rows)@.len() == old(rows)@.len(),
        final(rows)@[old(rows)@.len() - 1]@ == old(rows)@[old(rows)@.len() - 1]@.push(inst),
        forall|i: int| 0 <= i < old(rows)@.len() - 1 ==> final(rows)@[i] == old(rows)@[i],
{
    let i = rows.len() - 1;
    let row = &mut rows[i];
    row.push(inst);
}

impl Source {
    /// Whether the grid is the well-formed padding of some source text.
    #[verifier::type_invariant]
    pub open spec fn type_inv(self) -> bool {
        grid_wf(self@)
    }

    /// Parse a source text into its padded grid.
    pub fn from_str(s: &str) -> (r: Source)
        requires
            s@.len() + 5 <= COORDINATE_LIMIT as int,
            s@.len() + 4 <= usize::MAX,
        ensures
            r@ == grid_of_text(s@),
    {
        // Split the text into rows of compiled instructions.
        let mut rows: Vec<Vec<Instruction>> = Vec::new();
        rows.push(Vec::new());
        proof {
            assert(Seq::<char>::empty().take(0) =~= Seq::<char>::empty());
            assert(s@.take(0) =~= Seq::<char>::empty());
            assert(rows@[0]@ =~= content_row(split_lines(s@.take(0))[0]));
        }
        for c in it: s.chars()
            invariant
                it.seq() == s@,
                s@.len() + 2 <= COORDINATE_LIMIT as int,
                rows@.len() == split_lines(s@.take(it.index())).len(),
                forall|i: int| 0 <= i < rows@.len() ==> #[trigger] rows@[i]@ == content_row(
                    split_lines(s@.take(it.index()))[i],
                ),
        {
            let ghost prefix = s@.take(it.index());
            proof {
                lemma_split_lines_snoc(prefix, c);
                lemma_split_lines_bounds(prefix);
                assert(s@.take(it.index() + 1) =~= prefix.push(c));
            }
            if c == '\n' {
                rows.push(Vec::new());
                proof {
                    assert(rows@.last()@ =~= content_row(Seq::<char>::empty()));
                }
            } else {
                push_cell(&mut rows, Instruction::from_char(c));
                proof {
                    let lines = split_lines(prefix);
                    assert(rows@.last()@ =~= content_row(lines.last().push(c)));
                }
            }
        }
        let ghost lines = split_lines(s@);
        proof {
            assert(s@.take(s@.len() as int) =~= s@);
            lemma_split_lines_bounds(s@);
            lemma_max_line_len_bounds(lines);
        }

        // Find the longest row.
        let mut max_len: usize = 0;
        let row_count = rows.len();
        for i in 0..row_count
            invariant
                row_count == rows@.len(),
                rows@.len() == lines.len(),
                forall|k: int| 0 <= k < rows@.len() ==> #[trigger] rows@[k]@ == content_row(
                    lines[k],
                ),
                max_len as int == max_line_len(lines.take(i as int)),
        {
            proof {
                assert(lines.take(i + 1).drop_last() =~= lines.take(i as int));
                assert(rows@[i as int]@.len() == lines[i as int].len());
            }
            let l = rows[i].len();
            if l > max_len {
                max_len = l;
            }
        }
        proof {
            assert(lines.take(lines.len() as int) =~= lines);
        }

        // Assemble the bordered grid.
        let width = max_len + 2;
        let up_value = (row_count as i64) + 1;
        let up_row = make_wall_row(width, InterpreterDirection::Up, up_value);
        let up_row2 = make_wall_row(width, InterpreterDirection::Up, up_value);
        let mut map: Vec<Vec<Instruction>> = Vec::new();
        map.push(up_row);
        map.push(up_row2);
        for i in 0..row_count
            invariant
                row_count == rows@.len(),
                rows@.len() == lines.len(),
                lines.len() + 2 <= COORDINATE_LIMIT as int,
                forall|k: int| 0 <= k < rows@.len() ==> #[trigger] rows@[k]@ == content_row(
                    lines[k],
                ),
                forall|k: int| 0 <= k < rows@.len() ==> #[trigger] rows@[k]@.len() == lines[
                    k
                ].len(),
                forall|k: int| 0 <= k < lines.len() ==> #[trigger] lines[k].len()
                    <= COORDINATE_LIMIT as int - 2,
                map@.len() == i + 2,
                map@[0]@ == wall_row_spec(
                    width as int,
                    InterpreterDirection::Up,
                    (lines.len() + 1) as i64,
                ),
                map@[1]@ == map@[0]@,
                forall|k: int| 2 <= k < map@.len() ==> #[trigger] map@[k]@ == grid_row_spec(
                    lines[k - 2],
                ),
        {
            let line_len = rows[i].len();
            let lw = Instruction::from_wall_data(
                InterpreterDirection::Left,
                (line_len as i64) + 1,
            );
            let mut row: Vec<Instruction> = Vec::new();
            row.push(lw);
            row.push(lw);
            for j in 0..line_len
                invariant
                    row_count == rows@.len(),
                    i < rows@.len(),
                    line_len == rows@[i as int]@.len(),
                    rows@[i as int]@ == content_row(lines[i as int]),
                    row@.len() == j + 2,
                    row@[0] == lw,
                    row@[1] == lw,
                    lw == wall_instruction(
                        InterpreterDirection::Left,
                        (lines[i as int].len() + 1) as i64,
                    ),
                    forall|k: int| 2 <= k < row@.len() ==> #[trigger] row@[k] == rows@[
                        i as int
                    ]@[k - 2],
            {
                let inst = rows[i][j];
                row.push(inst);
            }
            proof {
                assert(row@ =~= grid_row_spec(lines[i as int]));
            }
            map.push(row);
        }
        let down_row = make_wall_row(width, InterpreterDirection::Down, 2);
        let down_row2 = make_wall_row(width, InterpreterDirection::Down, 2);
        map.push(down_row);
        map.push(down_row2);
        let r = Source { map };
        proof {
            assert(r@ =~~= grid_of_text(s@));
            lemma_grid_of_text_wf(s@);
        }
        r
    }

    /// Parse a source text into its padded grid.
    pub fn new(s: &str) -> (r: Source)
        requires
            s@.len() + 5 <= COORDINATE_LIMIT as int,
            s@.len() + 4 <= usize::MAX,
        ensures
            r@ == grid_of_text(s@),
    {
        Source::from_str(s)
    }

    /// Number of rows of the padded grid.
    pub fn row_count(&self) -> (r: usize)
        ensures
            r == self@.len(),
            5 <= r,
    {
        proof {
            use_type_invariant(self);
        }
        self.map.len()
    }

    /// Width of the padded grid: that of its wall rows.
    pub fn width(&self) -> (r: usize)
        ensures
            r == self@[0].len(),
            2 <= r,
    {
        proof {
            use_type_invariant(self);
        }
        let first = &self.map[0];
        first.len()
    }

    /// The cell at padded coordinates.
    pub(crate) fn cell(&self, row: usize, col: usize) -> (r: Instruction)
        requires
            row < self@.len(),
        ensures
            r == cell_at(self@, row as int, col as int),
    {
        let rowv = &self.map[row];
        if col >= rowv.len() {
            Instruction::from_wall_data(InterpreterDirection::Right, 2)
        } else {
            rowv[col]
        }
    }

    /// The cell at user coordinates, which sit two rows and two columns
    /// inside the padded grid.
    pub fn get(&self, pos: (i64, i64)) -> (r: Instruction)
        requires
            -2 <= pos.0,
            pos.0 + 2 < self@.len(),
            pos.0 + 2 <= usize::MAX,
            pos.0 <= COORDINATE_LIMIT,
            -2 <= pos.1,
            pos.1 + 2 <= usize::MAX,
            pos.1 <= COORDINATE_LIMIT,
        ensures
            r == cell_at(self@, pos.0 + 2, pos.1 + 2),
    {
        self.cell((pos.0 + 2) as usize, (pos.1 + 2) as usize)
    }
}

} // verus!
