use vstd::prelude::*;

verus! {

/// Whether `(i, j)` names one of the 64 squares.
pub open spec fn on_board(i: int, j: int) -> bool {
    0 <= i < 8 && 0 <= j < 8
}

/// A grid has eight rows of eight cells.
pub open spec fn is_grid(g: Seq<Seq<char>>) -> bool {
    g.len() == 8 && forall|i: int| 0 <= i < 8 ==> (#[trigger] g[i]).len() == 8
}

/// The value of cell `(i, j)` of grid `g`, and `'?'` off the board.
pub open spec fn cell(g: Seq<Seq<char>>, i: int, j: int) -> char {
    if on_board(i, j) {
        g[i][j]
    } else {
        '?'
    }
}

/// The five values of a cell: empty, a black man or king, a white man or king.
pub open spec fn is_cell(c: char) -> bool {
    c == '.' || c == 'b' || c == 'B' || c == 'w' || c == 'W'
}

/// Every square of grid `g` holds one of the five cell values.
pub open spec fn holds_cells(g: Seq<Seq<char>>) -> bool {
    forall|i: int, j: int| on_board(i, j) ==> is_cell(#[trigger] cell(g, i, j))
}

/// The grid that a board array stands for: eight rows of eight cells.
pub open spec fn grid_of(b: [[char; 8]; 8]) -> Seq<Seq<char>> {
    Seq::new(8, |i: int| b[i]@)
}

/// The character sequences of a list of row strings.
pub open spec fn rows_of(s: Seq<&str>) -> Seq<Seq<char>> {
    Seq::new(s.len(), |i: int| s[i]@)
}

/// The grid described by `rows`: cell `(i, j)` is the `j`-th character of the
/// `i`-th row where there is one, and empty (`'.'`) everywhere else.
pub open spec fn grid_from_rows(rows: Seq<Seq<char>>) -> Seq<Seq<char>> {
    Seq::new(
        8,
        |i: int|
            Seq::new(
                8,
                |j: int|
                    if i < rows.len() && j < rows[i].len() {
                        rows[i][j]
                    } else {
                        '.'
                    },
            ),
    )
}

/// The text of a grid: 72 characters, each row's eight cells followed by a
/// line feed.
pub open spec fn grid_text(g: Seq<Seq<char>>) -> Seq<char> {
    Seq::new(
        72,
        |k: int|
            if k % 9 == 8 {
                '\n'
            } else {
                g[k / 9][k % 9]
            },
    )
}

/// The eight lines of a text of 72 characters, each without its line feed.
pub open spec fn lines_of(text: Seq<char>) -> Seq<Seq<char>> {
    Seq::new(8, |i: int| text.subrange(9 * i, 9 * i + 8))
}

/// Builds a board from at most eight rows of at most eight characters each:
/// `'.'` for an empty cell, `'b'` and `'B'` for a black man and king, `'w'`
/// and `'W'` for a white man and king. Cells that the rows do not reach are
/// empty.
pub fn make_board(s: Vec<&str>) -> (board: [[char; 8]; 8])
    requires
        s.len() <= 8,
        forall|i: int| 0 <= i < s.len() ==> (#[trigger] s[i])@.len() <= 8,
    ensures
        grid_of(board) == grid_from_rows(rows_of(s@)),
{
    let mut board = [['.'; 8]; 8];
    let mut i: usize = 0;
    while i < s.len()
        invariant
            i <= s.len() <= 8,
            forall|k: int| 0 <= k < s.len() ==> (#[trigger] s[k])@.len() <= 8,
            forall|r: int, c: int|
                0 <= r < 8 && 0 <= c < 8 ==> #[trigger] board[r][c] == (if r < i && c < s[r]@.len() {
                    s[r]@[c]
                } else {
                    '.'
                }),
        decreases s.len() - i,
    {
        let row: &str = s[i];
        let n: usize = row.unicode_len();
        let mut j: usize = 0;
        while j < n
            invariant
                i < s.len() <= 8,
                j <= n <= 8,
                n == s[i as int]@.len(),
                row@ == s[i as int]@,
                forall|r: int, c: int|
                    0 <= r < 8 && 0 <= c < 8 ==> #[trigger] board[r][c] == (if (r < i && c
                        < s[r]@.len()) || (r == i && c < j) {
                        s[r]@[c]
                    } else {
                        '.'
                    }),
            decreases n - j,
        {
            board[i][j] = row.get_char(j);
            j += 1;
        }
        i += 1;
    }
    assert(grid_of(board) =~~= grid_from_rows(rows_of(s@)));
    board
}

/// `String::push` of the standard library: the string afterwards is the
/// string before with `c` appended.
#[verifier::external_body]
fn push_char(text: &mut String, c: char)
    ensures
        final(text)@ == old(text)@.push(c),
{
    text.push(c);
}

/// Writes a board as text, one line per row.
pub fn board_to_string(b: &[[char; 8]; 8]) -> (as_str: String)
    ensures
        as_str@ == grid_text(grid_of(*b)),
{
    let mut as_str = String::new();
    let mut i: usize = 0;
    while i < 8
        invariant
            i <= 8,
            as_str@.len() == 9 * i,
            forall|k: int| 0 <= k < 9 * i ==> as_str@[k] == #[trigger] grid_text(grid_of(*b))[k],
        decreases 8 - i,
    {
        let mut j: usize = 0;
        while j < 8
            invariant
                i < 8,
                j <= 8,
                as_str@.len() == 9 * i + j,
                forall|k: int|
                    0 <= k < 9 * i + j ==> as_str@[k] == #[trigger] grid_text(grid_of(*b))[k],
            decreases 8 - j,
        {
            push_char(&mut as_str, b[i][j]);
            j += 1;
        }
        push_char(&mut as_str, '\n');
        i += 1;
    }
    assert(as_str@ =~= grid_text(grid_of(*b)));
    as_str
}

/// The grid of a board array has eight rows of eight cells, and its cells are
/// those of the array.
pub proof fn lemma_board_grid(b: [[char; 8]; 8])
    ensures
        is_grid(grid_of(b)),
        forall|i: int, j: int| on_board(i, j) ==> cell(grid_of(b), i, j) == #[trigger] b[i][j],
{
}

/// Eight rows of eight characters are read as themselves.
pub proof fn lemma_full_rows(rows: Seq<Seq<char>>)
    requires
        is_grid(rows),
    ensures
        grid_from_rows(rows) == rows,
{
    assert(grid_from_rows(rows) =~~= rows);
}

/// Rows written with the five cell characters give a grid of cell values.
pub proof fn lemma_rows_hold_cells(rows: Seq<Seq<char>>)
    requires
        forall|i: int, j: int|
            0 <= i < rows.len() && 0 <= j < rows[i].len() ==> is_cell(#[trigger] rows[i][j]),
    ensures
        is_grid(grid_from_rows(rows)),
        holds_cells(grid_from_rows(rows)),
{
    let g = grid_from_rows(rows);
    assert forall|i: int, j: int| on_board(i, j) implies is_cell(#[trigger] cell(g, i, j)) by {
        if i < rows.len() && j < rows[i].len() {
            assert(is_cell(rows[i][j]));
        }
    }
}

/// Writing and reading round-trip: the lines of a grid's text, read as rows,
/// give the grid back.
pub proof fn lemma_round_trip(g: Seq<Seq<char>>)
    requires
        is_grid(g),
    ensures
        grid_text(g).len() == 72,
        lines_of(grid_text(g)) == g,
        grid_from_rows(lines_of(grid_text(g))) == g,
{
    let text = grid_text(g);
    assert forall|i: int| 0 <= i < 8 implies #[trigger] lines_of(text)[i] =~= g[i] by {
        let line = lines_of(text)[i];
        assert forall|j: int| 0 <= j < 8 implies line[j] == g[i][j] by {
            assert(line[j] == text[9 * i + j]);
            assert((9 * i + j) / 9 == i && (9 * i + j) % 9 == j);
        }
    }
    assert(lines_of(text) =~= g);
    lemma_full_rows(g);
}

} // verus!
