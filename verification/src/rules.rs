use crate::board::cell;
use vstd::prelude::*;

verus! {

/// The side to move.
#[derive(Clone, Copy, PartialEq, Eq, Debug, Structural)]
pub enum Turn {
    Black,
    White,
}

/// One atomic relocation of a piece: a plain diagonal step, or a single jump
/// over the opposing piece standing on `capture`.
#[derive(Debug, PartialEq, Clone, Copy)]
pub struct Step {
    pub src: (u8, u8),
    pub dst: (u8, u8),
    pub capture: Option<(u8, u8)>,
}

/// The state of a game as the rules see it: the grid of cells, the side to
/// move, and the square of the piece that is in the middle of a jump sequence.
pub struct Position {
    pub turn: Turn,
    pub grid: Seq<Seq<char>>,
    pub in_step: Option<(u8, u8)>,
}

impl Step {
    /// Row of the square the piece leaves.
    pub fn src_i(&self) -> (r: u8)
        ensures
            r == self.src.0,
    {
        self.src.0
    }

    /// Column of the square the piece leaves.
    pub fn src_j(&self) -> (r: u8)
        ensures
            r == self.src.1,
    {
        self.src.1
    }

    /// Row of the square the piece lands on.
    pub fn dst_i(&self) -> (r: u8)
        ensures
            r == self.dst.0,
    {
        self.dst.0
    }

    /// Column of the square the piece lands on.
    pub fn dst_j(&self) -> (r: u8)
        ensures
            r == self.dst.1,
    {
        self.dst.1
    }
}

/// Why a move was not played.
#[derive(Debug, PartialEq, Eq, Clone, Copy)]
pub enum StepError {
    /// The move is not among the legal moves of its source square.
    Illegal,
}

/// The side that is not `t`.
pub open spec fn opponent(t: Turn) -> Turn {
    match t {
        Turn::Black => Turn::White,
        Turn::White => Turn::Black,
    }
}

/// Whether cell value `c` is a piece of side `t`.
pub open spec fn owns(t: Turn, c: char) -> bool {
    match t {
        Turn::Black => c == 'b' || c == 'B',
        Turn::White => c == 'w' || c == 'W',
    }
}

/// Whether piece `c` may travel along rows in direction `dr`: a black man
/// toward row 0, a white man toward row 7, a king either way.
pub open spec fn heads(c: char, dr: int) -> bool {
    ||| c == 'B'
    ||| c == 'W'
    ||| c == 'b' && dr == -1
    ||| c == 'w' && dr == 1
}

/// The plain step from `(i, j)` one cell along `(dr, dc)`.
pub open spec fn plain_step(i: int, j: int, dr: int, dc: int) -> Step {
    Step { src: (i as u8, j as u8), dst: ((i + dr) as u8, (j + dc) as u8), capture: None }
}

/// The jump from `(i, j)` over the neighbour along `(dr, dc)`.
pub open spec fn jump_step(i: int, j: int, dr: int, dc: int) -> Step {
    Step {
        src: (i as u8, j as u8),
        dst: ((i + 2 * dr) as u8, (j + 2 * dc) as u8),
        capture: Some(((i + dr) as u8, (j + dc) as u8)),
    }
}

/// The piece on `(i, j)` may step along `(dr, dc)`: it heads that way and the
/// neighbouring cell is an empty square of the board.
pub open spec fn can_plain(g: Seq<Seq<char>>, i: int, j: int, dr: int, dc: int) -> bool {
    heads(cell(g, i, j), dr) && cell(g, i + dr, j + dc) == '.'
}

/// The piece on `(i, j)`, moving for side `t`, may jump along `(dr, dc)`: it
/// heads that way, the neighbouring cell holds a piece of the other side, and
/// the cell behind that one is an empty square of the board.
pub open spec fn can_jump(g: Seq<Seq<char>>, t: Turn, i: int, j: int, dr: int, dc: int) -> bool {
    &&& heads(cell(g, i, j), dr)
    &&& owns(opponent(t), cell(g, i + dr, j + dc))
    &&& cell(g, i + 2 * dr, j + 2 * dc) == '.'
}

/// The plain step along `(dr, dc)` if there is one, as a sequence of length
/// zero or one.
pub open spec fn plain_in(g: Seq<Seq<char>>, i: int, j: int, dr: int, dc: int) -> Seq<Step> {
    if can_plain(g, i, j, dr, dc) {
        seq![plain_step(i, j, dr, dc)]
    } else {
        Seq::empty()
    }
}

/// The jump along `(dr, dc)` if there is one, as a sequence of length zero
/// or one.
pub open spec fn jump_in(g: Seq<Seq<char>>, t: Turn, i: int, j: int, dr: int, dc: int) -> Seq<
    Step,
> {
    if can_jump(g, t, i, j, dr, dc) {
        seq![jump_step(i, j, dr, dc)]
    } else {
        Seq::empty()
    }
}

/// The plain steps of the piece on `(i, j)`, in the order north-west,
/// north-east, south-west, south-east (north is toward row 0, west toward
/// column 0).
pub open spec fn plains(g: Seq<Seq<char>>, i: int, j: int) -> Seq<Step> {
    plain_in(g, i, j, -1, -1) + plain_in(g, i, j, -1, 1) + plain_in(g, i, j, 1, -1)
        + plain_in(g, i, j, 1, 1)
}

/// The jumps of the piece on `(i, j)` moving for side `t`, in the same order.
pub open spec fn jumps(g: Seq<Seq<char>>, t: Turn, i: int, j: int) -> Seq<Step> {
    jump_in(g, t, i, j, -1, -1) + jump_in(g, t, i, j, -1, 1) + jump_in(g, t, i, j, 1, -1)
        + jump_in(g, t, i, j, 1, 1)
}

/// Square `(i, j)` holds a piece of side `t` that has at least one jump.
pub open spec fn can_capture(g: Seq<Seq<char>>, t: Turn, i: int, j: int) -> bool {
    &&& owns(t, cell(g, i, j))
    &&& (can_jump(g, t, i, j, -1, -1) || can_jump(g, t, i, j, -1, 1) || can_jump(g, t, i, j, 1, -1)
        || can_jump(g, t, i, j, 1, 1))
}

/// The piece on `(i, j)` is one that may be moved now: it belongs to the side
/// to move and, while a jump sequence is open, it is the jumping piece.
pub open spec fn may_move(pos: Position, i: int, j: int) -> bool {
    &&& owns(pos.turn, cell(pos.grid, i, j))
    &&& (pos.in_step matches Some(p) ==> p.0 == i && p.1 == j)
}

/// The moves of square `(i, j)` taken by itself: its jumps if it has any,
/// otherwise its plain steps, which exist only while no jump sequence is open.
pub open spec fn local_steps(pos: Position, i: int, j: int) -> Seq<Step> {
    if !may_move(pos, i, j) {
        Seq::empty()
    } else if jumps(pos.grid, pos.turn, i, j).len() > 0 {
        jumps(pos.grid, pos.turn, i, j)
    } else if pos.in_step is None {
        plains(pos.grid, i, j)
    } else {
        Seq::empty()
    }
}

/// A non-empty list of moves whose first move is a jump.
pub open spec fn is_capture_set(steps: Seq<Step>) -> bool {
    steps.len() > 0 && steps[0].capture is Some
}

/// Some square other than `(i, j)` holds a piece of the side to move that has
/// a jump. An open jump sequence is not taken into account here.
pub open spec fn other_can_capture(pos: Position, i: int, j: int) -> bool {
    exists|oi: int, oj: int|
        !(oi == i && oj == j) && #[trigger] can_capture(pos.grid, pos.turn, oi, oj)
}

/// The legal moves of square `(i, j)`: its own moves, unless they are plain
/// steps while another piece of the side to move has a jump.
pub open spec fn legal_steps(pos: Position, i: int, j: int) -> Seq<Step> {
    let local = local_steps(pos, i, j);
    if !is_capture_set(local) && other_can_capture(pos, i, j) {
        Seq::empty()
    } else {
        local
    }
}

/// Whether `s` is a legal move in `pos`.
pub open spec fn legal(pos: Position, s: Step) -> bool {
    legal_steps(pos, s.src.0 as int, s.src.1 as int).contains(s)
}

/// Move `s` is what its source square offers along `(dr, dc)`: the jump that
/// way, or the plain step that way while no jump sequence is open and the
/// piece has no jump at all.
pub open spec fn steps_along(pos: Position, s: Step, dr: int, dc: int) -> bool {
    let i = s.src.0 as int;
    let j = s.src.1 as int;
    ||| s == jump_step(i, j, dr, dc) && can_jump(pos.grid, pos.turn, i, j, dr, dc)
    ||| s == plain_step(i, j, dr, dc) && can_plain(pos.grid, i, j, dr, dc) && pos.in_step is None
        && !can_capture(pos.grid, pos.turn, i, j)
}

/// The rules of movement in one statement: the piece on the source square of
/// `s` may be moved now, `s` is what that square offers along one of the four
/// diagonals, and `s` is a jump unless no other piece of the side to move has
/// one.
pub open spec fn obeys_rules(pos: Position, s: Step) -> bool {
    &&& may_move(pos, s.src.0 as int, s.src.1 as int)
    &&& (steps_along(pos, s, -1, -1) || steps_along(pos, s, -1, 1) || steps_along(pos, s, 1, -1)
        || steps_along(pos, s, 1, 1))
    &&& (s.capture is Some || !other_can_capture(pos, s.src.0 as int, s.src.1 as int))
}

/// Grid `g` with the cell on square `at` replaced by `c`.
pub open spec fn put(g: Seq<Seq<char>>, at: (u8, u8), c: char) -> Seq<Seq<char>> {
    g.update(at.0 as int, g[at.0 as int].update(at.1 as int, c))
}

/// What piece `c` is after landing on row `row`: a man that has reached the
/// farthest row is a king.
pub open spec fn crowned(c: char, row: int) -> char {
    if c == 'w' && row == 7 {
        'W'
    } else if c == 'b' && row == 0 {
        'B'
    } else {
        c
    }
}

/// The grid after move `s`: the square the piece left and the square it
/// jumped over, if any, are empty, and the piece stands on the landing square,
/// crowned if it is a man that has reached the farthest row.
pub open spec fn landed(g: Seq<Seq<char>>, s: Step) -> Seq<Seq<char>> {
    let piece = cell(g, s.src.0 as int, s.src.1 as int);
    let moved = put(put(g, s.src, '.'), s.dst, crowned(piece, s.dst.0 as int));
    match s.capture {
        Some(c) => put(moved, c, '.'),
        None => moved,
    }
}

/// Whether the mover must go on jumping after `s`: `s` is a jump, and the
/// piece on the landing square has a further jump. A man is crowned as it
/// lands, so one that a jump takes to the farthest row goes on as a king.
pub open spec fn continues(pos: Position, s: Step) -> bool {
    s.capture is Some && can_capture(
        landed(pos.grid, s),
        pos.turn,
        s.dst.0 as int,
        s.dst.1 as int,
    )
}

/// The position after move `s`. The grid is `landed`: the moved piece stands
/// on the landing square, crowned if it is a man that has reached the
/// farthest row. The turn passes and no jump sequence is open, unless the
/// move `continues`: then the same side is to move and the sequence is open
/// on the landing square.
pub open spec fn apply_step(pos: Position, s: Step) -> Position {
    if continues(pos, s) {
        Position { turn: pos.turn, grid: landed(pos.grid, s), in_step: Some(s.dst) }
    } else {
        Position { turn: opponent(pos.turn), grid: landed(pos.grid, s), in_step: None }
    }
}

/// What stands on square `(i, j)` when a game begins: white men on the dark
/// squares of rows 0 to 2, black men on those of rows 5 to 7.
pub open spec fn initial_cell(i: int, j: int) -> char {
    if (i + j) % 2 == 0 {
        '.'
    } else if i < 3 {
        'w'
    } else if i > 4 {
        'b'
    } else {
        '.'
    }
}

/// The position in which a game begins; black moves first.
pub open spec fn initial_position() -> Position {
    Position {
        turn: Turn::Black,
        grid: Seq::new(8, |i: int| Seq::new(8, |j: int| initial_cell(i, j))),
        in_step: None,
    }
}

} // verus!
