use crate::board::{
    board_to_string, cell, grid_from_rows, grid_of, grid_text, make_board, on_board, rows_of,
};
use crate::laws::{lemma_capture_set, lemma_legal_steps_members, lemma_open_sequence};
use crate::rules::{
    apply_step, can_capture, heads, initial_position, is_capture_set, jump_in, landed, legal,
    legal_steps, local_steps, opponent, other_can_capture, owns, plain_in, Position, Step,
    StepError, Turn,
};
use vstd::prelude::*;

verus! {

/// A game of English draughts: the board, the side to move, and the square of
/// the piece that has jumped and must jump again.
pub struct Checkers {
    pub turn: Turn,
    pub board: [[char; 8]; 8],
    pub in_step: Option<(u8, u8)>,
}

impl View for Checkers {
    type V = Position;

    open spec fn view(&self) -> Position {
        Position { turn: self.turn, grid: grid_of(self.board), in_step: self.in_step }
    }
}

impl Checkers {
    /// A game in the standard opening position.
    pub fn new() -> (ch: Checkers)
        ensures
            ch@ == initial_position(),
    {
        let rows = vec![
            ".w.w.w.w",
            "w.w.w.w.",
            ".w.w.w.w",
            "........",
            "........",
            "b.b.b.b.",
            ".b.b.b.b",
            "b.b.b.b.",
        ];
        proof {
            reveal_strlit(".w.w.w.w");
            reveal_strlit("w.w.w.w.");
            reveal_strlit("........");
            reveal_strlit("b.b.b.b.");
            reveal_strlit(".b.b.b.b");
        }
        let ch = Checkers::from(rows, Turn::Black);
        assert(ch@.grid =~~= initial_position().grid);
        ch
    }

    /// A game that begins from the layout written in `s`, with side `t` to
    /// move. Row `i` of the board is `s[i]`, one character per cell; cells
    /// that `s` does not reach are empty.
    pub fn from(s: Vec<&str>, t: Turn) -> (ch: Checkers)
        requires
            s.len() <= 8,
            forall|i: int| 0 <= i < s.len() ==> (#[trigger] s[i])@.len() <= 8,
        ensures
            ch@ == (Position { turn: t, grid: grid_from_rows(rows_of(s@)), in_step: None }),
    {
        Checkers { turn: t, board: make_board(s), in_step: None }
    }

    /// What is on square `(i, j)`: `'.'` for an empty square, `'b'`, `'B'`,
    /// `'w'` or `'W'` for a piece, and `'?'` where there is no such square.
    pub fn at(&self, i: isize, j: isize) -> (c: char)
        ensures
            c == cell(self@.grid, i as int, j as int),
    {
        if i < 0 || j < 0 || i > 7 || j > 7 {
            return '?';
        }
        self.board[i as usize][j as usize]
    }

    /// The side to move, as `'b'` or `'w'`.
    pub fn get_turn(&self) -> (c: char)
        ensures
            c == (match self@.turn {
                Turn::Black => 'b',
                Turn::White => 'w',
            }),
    {
        match self.turn {
            Turn::Black => 'b',
            Turn::White => 'w',
        }
    }

    /// The board as text: one line per row, eight characters each.
    pub fn to_text(&self) -> (text: String)
        ensures
            text@ == grid_text(self@.grid),
    {
        board_to_string(&self.board)
    }

    /// Whether square `(i, j)` of `vboard` holds a piece of the side that
    /// `turn` plays against.
    fn is_opponent(turn: Turn, vboard: &[[char; 8]; 8], i: isize, j: isize) -> (b: bool)
        ensures
            b == owns(opponent(turn), cell(grid_of(*vboard), i as int, j as int)),
    {
        if i < 0 || j < 0 || i > 7 || j > 7 {
            return false;
        }
        let c = vboard[i as usize][j as usize];
        match turn {
            Turn::Black => c == 'w' || c == 'W',
            Turn::White => c == 'b' || c == 'B',
        }
    }

    /// Whether `(i, j)` is an empty square of `vboard`.
    fn is_empty(vboard: &[[char; 8]; 8], i: isize, j: isize) -> (b: bool)
        ensures
            b == (cell(grid_of(*vboard), i as int, j as int) == '.'),
    {
        if i < 0 || j < 0 || i > 7 || j > 7 {
            return false;
        }
        vboard[i as usize][j as usize] == '.'
    }

    /// Whether piece `c` travels along rows in direction `dr`.
    fn travels(c: char, dr: isize) -> (b: bool)
        ensures
            b == heads(c, dr as int),
    {
        c == 'B' || c == 'W' || (c == 'b' && dr == -1) || (c == 'w' && dr == 1)
    }

    /// Appends the plain step from `(i, j)` along `(dr, dc)` if there is one.
    fn maybe_step(&self, steps: &mut Vec<Step>, i: usize, j: usize, dr: isize, dc: isize)
        requires
            i < 8,
            j < 8,
            dr == 1 || dr == -1,
            dc == 1 || dc == -1,
        ensures
            final(steps)@ == old(steps)@ + plain_in(
                self@.grid,
                i as int,
                j as int,
                dr as int,
                dc as int,
            ),
    {
        let dst_i: isize = i as isize + dr;
        let dst_j: isize = j as isize + dc;
        if Self::travels(self.board[i][j], dr) && Self::is_empty(&self.board, dst_i, dst_j) {
            steps.push(
                Step { src: (i as u8, j as u8), dst: (dst_i as u8, dst_j as u8), capture: None },
            );
        }
    }

    /// Appends the jump from `(i, j)` along `(dr, dc)` if there is one.
    fn maybe_jump(&self, steps: &mut Vec<Step>, i: usize, j: usize, dr: isize, dc: isize)
        requires
            i < 8,
            j < 8,
            dr == 1 || dr == -1,
            dc == 1 || dc == -1,
        ensures
            final(steps)@ == old(steps)@ + jump_in(
                self@.grid,
                self@.turn,
                i as int,
                j as int,
                dr as int,
                dc as int,
            ),
    {
        let jump_i: isize = i as isize + dr;
        let jump_j: isize = j as isize + dc;
        let dst_i: isize = jump_i + dr;
        let dst_j: isize = jump_j + dc;
        if Self::travels(self.board[i][j], dr) && Self::is_opponent(
            self.turn,
            &self.board,
            jump_i,
            jump_j,
        ) && Self::is_empty(&self.board, dst_i, dst_j) {
            steps.push(
                Step {
                    src: (i as u8, j as u8),
                    dst: (dst_i as u8, dst_j as u8),
                    capture: Some((jump_i as u8, jump_j as u8)),
                },
            );
        }
    }

    /// Plays move `s`, which must be legal: relocates the piece, crowns it if
    /// it is a man that has reached the farthest row, takes the jumped piece
    /// off the board, and passes the turn unless the piece has jumped and,
    /// crowned or not, can jump again from where it stands.
    pub fn make_step(&mut self, s: Step)
        requires
            legal(old(self)@, s),
        ensures
            final(self)@ == apply_step(old(self)@, s),
    {
        proof {
            lemma_legal_steps_members(old(self)@, s.src.0 as int, s.src.1 as int, s);
        }
        let src_i: usize = s.src.0 as usize;
        let src_j: usize = s.src.1 as usize;
        let dst_i: usize = s.dst.0 as usize;
        let dst_j: usize = s.dst.1 as usize;
        let piece = self.board[src_i][src_j];
        self.board[src_i][src_j] = '.';
        assert(self.board[dst_i as int][dst_j as int] == '.');
        // A man that reaches the farthest row lands as a king.
        let landing = if piece == 'w' && s.dst.0 == 7 {
            'W'
        } else if piece == 'b' && s.dst.0 == 0 {
            'B'
        } else {
            piece
        };
        self.board[dst_i][dst_j] = landing;
        match s.capture {
            Some(jump) => {
                let jump_i: usize = jump.0 as usize;
                let jump_j: usize = jump.1 as usize;
                assert(owns(opponent(self.turn), self.board[jump_i as int][jump_j as int]));
                self.board[jump_i][jump_j] = '.';
                self.in_step = Some((s.dst.0, s.dst.1));
                assert(self@.grid =~~= landed(old(self)@.grid, s));
                proof {
                    lemma_open_sequence(self@, dst_i as int, dst_j as int);
                }
                if self.get_steps(dst_i, dst_j).len() == 0 {
                    // No further jumps are possible. Switch turn.
                    self.in_step = None;
                    self.turn =
                    match self.turn {
                        Turn::White => Turn::Black,
                        Turn::Black => Turn::White,
                    };
                }
            },
            None => {
                // Regular move. Switch turn.
                assert(self@.grid =~~= landed(old(self)@.grid, s));
                self.turn =
                match self.turn {
                    Turn::White => Turn::Black,
                    Turn::Black => Turn::White,
                };
            },
        }
    }

    /// Plays move `s` if it is legal, and otherwise leaves the game as it is
    /// and says so.
    pub fn try_make_step(&mut self, s: Step) -> (r: Result<(), StepError>)
        ensures
            r is Ok <==> legal(old(self)@, s),
            r is Ok ==> final(self)@ == apply_step(old(self)@, s),
            r is Err ==> *final(self) == *old(self),
    {
        let steps = self.get_steps(s.src.0 as usize, s.src.1 as usize);
        let mut k: usize = 0;
        while k < steps.len()
            invariant
                k <= steps.len(),
                *self == *old(self),
                steps@ == legal_steps(self@, s.src.0 as int, s.src.1 as int),
                forall|n: int| 0 <= n < k ==> steps@[n] != s,
            decreases steps.len() - k,
        {
            if Self::same_step(&steps[k], &s) {
                assert(steps@.contains(s));
                self.make_step(s);
                return Ok(());
            }
            k += 1;
        }
        Err(StepError::Illegal)
    }

    /// Whether two moves name the same squares.
    fn same_step(a: &Step, b: &Step) -> (r: bool)
        ensures
            r == (*a == *b),
    {
        let same_capture = match (a.capture, b.capture) {
            (Some(x), Some(y)) => x.0 == y.0 && x.1 == y.1,
            (None, None) => true,
            _ => false,
        };
        a.src.0 == b.src.0 && a.src.1 == b.src.1 && a.dst.0 == b.dst.0 && a.dst.1 == b.dst.1
            && same_capture
    }

    /// The legal moves of square `(i, j)`. A piece that has a jump must
    /// jump, and while any piece of the side to move has a jump, pieces
    /// without one have no move. The result is empty where `(i, j)` is no
    /// square of the board, is empty, holds a piece of the other side, or is
    /// not the piece that is in the middle of a jump sequence.
    pub fn get_steps(&self, i: usize, j: usize) -> (steps: Vec<Step>)
        ensures
            steps@ == legal_steps(self@, i as int, j as int),
    {
        // Check if any other piece can capture.
        let mut other_has_capture = false;
        let mut oi: usize = 0;
        while oi < 8 && !other_has_capture
            invariant
                oi <= 8,
                other_has_capture ==> exists|r: int, c: int|
                    !(r == i && c == j) && is_capture_set(#[trigger] local_steps(self@, r, c)),
                !other_has_capture ==> forall|r: int, c: int|
                    0 <= r < oi && 0 <= c < 8 && !(r == i && c == j) ==> !is_capture_set(
                        #[trigger] local_steps(self@, r, c),
                    ),
            decreases 8 - oi + (if other_has_capture { 0int } else { 1int }),
        {
            let mut oj: usize = 0;
            while oj < 8 && !other_has_capture
                invariant
                    oi < 8,
                    oj <= 8,
                    other_has_capture ==> exists|r: int, c: int|
                        !(r == i && c == j) && is_capture_set(
                            #[trigger] local_steps(self@, r, c),
                        ),
                    !other_has_capture ==> forall|r: int, c: int|
                        0 <= r < oi && 0 <= c < 8 && !(r == i && c == j) ==> !is_capture_set(
                            #[trigger] local_steps(self@, r, c),
                        ),
                    !other_has_capture ==> forall|c: int|
                        0 <= c < oj && !(oi == i && c == j) ==> !is_capture_set(
                            #[trigger] local_steps(self@, oi as int, c),
                        ),
                decreases 8 - oj + (if other_has_capture { 0int } else { 1int }),
            {
                if !(oi == i && oj == j) {
                    let steps = self.get_steps_local(oi, oj);
                    other_has_capture = steps.len() > 0 && steps[0].capture.is_some();
                }
                if !other_has_capture {
                    oj += 1;
                }
            }
            if !other_has_capture {
                oi += 1;
            }
        }

        let steps = self.get_steps_local(i, j);
        let has_capture = steps.len() > 0 && steps[0].capture.is_some();
        proof {
            // The scan respects an open jump sequence and the rule does not.
            // The two differ only where the moves of `(i, j)` are no jumps
            // while a sequence is open, and there `(i, j)` has no moves.
            let pos = self@;
            lemma_capture_set(pos, i as int, j as int);
            if other_has_capture {
                let (r, c) = choose|r: int, c: int|
                    !(r == i && c == j) && is_capture_set(#[trigger] local_steps(pos, r, c));
                lemma_capture_set(pos, r, c);
                assert(can_capture(pos.grid, pos.turn, r, c));
            } else if other_can_capture(pos, i as int, j as int) {
                let (r, c) = choose|r: int, c: int|
                    !(r == i && c == j) && #[trigger] can_capture(pos.grid, pos.turn, r, c);
                lemma_capture_set(pos, r, c);
                assert(on_board(r, c));
                if pos.in_step is None {
                    assert(is_capture_set(local_steps(pos, r, c)));
                }
            }
        }
        if !has_capture && other_has_capture {
            return Vec::new();
        }
        steps
    }

    /// The moves of square `(i, j)` without regard to jumps that other pieces
    /// may have.
    fn get_steps_local(&self, i: usize, j: usize) -> (steps: Vec<Step>)
        ensures
            steps@ == local_steps(self@, i as int, j as int),
    {
        if i > 7 || j > 7 {
            return Vec::new();
        }
        let piece = self.board[i][j];

        // Ensure piece matches turn.
        let own = match self.turn {
            Turn::Black => piece == 'b' || piece == 'B',
            Turn::White => piece == 'w' || piece == 'W',
        };
        if !own {
            return Vec::new();
        }
        match self.in_step {
            Some(in_step) => {
                if in_step.0 as usize != i || in_step.1 as usize != j {
                    // In a jump sequence only the piece that made the jump
                    // can make the next step.
                    return Vec::new();
                }
            },
            None => {},
        }

        // NW, NE, SW, SE. Jumps take precedence over plain steps.
        let mut steps: Vec<Step> = Vec::new();
        self.maybe_jump(&mut steps, i, j, -1, -1);
        self.maybe_jump(&mut steps, i, j, -1, 1);
        self.maybe_jump(&mut steps, i, j, 1, -1);
        self.maybe_jump(&mut steps, i, j, 1, 1);
        if steps.len() == 0 && self.in_step.is_none() {
            self.maybe_step(&mut steps, i, j, -1, -1);
            self.maybe_step(&mut steps, i, j, -1, 1);
            self.maybe_step(&mut steps, i, j, 1, -1);
            self.maybe_step(&mut steps, i, j, 1, 1);
        }
        steps
    }
}

} // verus!
