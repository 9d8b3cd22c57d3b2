use crate::board::{cell, is_grid, on_board};
use crate::laws::{lemma_legal_step_squares, lemma_legal_steps_members};
use crate::rules::{
    apply_step, can_capture, can_jump, can_plain, crowned, landed, legal, legal_steps,
    obeys_rules, opponent, other_can_capture, put, steps_along, Position, Step, Turn,
};
use vstd::prelude::*;

verus! {

/// The same kind of piece of the other colour; anything that is no piece is
/// left as it is.
pub open spec fn swap_colour(c: char) -> char {
    if c == 'b' {
        'w'
    } else if c == 'w' {
        'b'
    } else if c == 'B' {
        'W'
    } else if c == 'W' {
        'B'
    } else {
        c
    }
}

/// The row that row `r` is reflected to across the board's horizontal axis.
/// A number that is no row of the board is left as it is.
pub open spec fn mirror_row(r: u8) -> u8 {
    if r < 8 {
        (7 - r) as u8
    } else {
        r
    }
}

/// The square that `p` is reflected to.
pub open spec fn mirror_square(p: (u8, u8)) -> (u8, u8) {
    (mirror_row(p.0), p.1)
}

/// The move that `s` is reflected to.
pub open spec fn mirror_step(s: Step) -> Step {
    Step {
        src: mirror_square(s.src),
        dst: mirror_square(s.dst),
        capture: match s.capture {
            Some(c) => Some(mirror_square(c)),
            None => None,
        },
    }
}

/// The grid reflected across the horizontal axis, with the colours of all
/// pieces exchanged.
pub open spec fn mirror_grid(g: Seq<Seq<char>>) -> Seq<Seq<char>> {
    Seq::new(8, |i: int| Seq::new(8, |j: int| swap_colour(g[7 - i][j])))
}

/// The position seen from the other side of the board: the grid reflected,
/// the colours exchanged, and the other side to move.
pub open spec fn mirror(pos: Position) -> Position {
    Position {
        turn: opponent(pos.turn),
        grid: mirror_grid(pos.grid),
        in_step: match pos.in_step {
            Some(p) => Some(mirror_square(p)),
            None => None,
        },
    }
}

/// A reflected grid holds on the reflected square the same piece in the other
/// colour.
pub proof fn lemma_mirror_cell(g: Seq<Seq<char>>, i: int, j: int)
    ensures
        cell(mirror_grid(g), 7 - i, j) == swap_colour(cell(g, i, j)),
{
}

/// A piece has a jump in one direction exactly if its reflection has the
/// reflected jump.
pub proof fn lemma_mirror_jump(g: Seq<Seq<char>>, t: Turn, i: int, j: int, dr: int, dc: int)
    ensures
        can_jump(mirror_grid(g), opponent(t), 7 - i, j, -dr, dc) == can_jump(g, t, i, j, dr, dc),
        can_plain(mirror_grid(g), 7 - i, j, -dr, dc) == can_plain(g, i, j, dr, dc),
{
    lemma_mirror_cell(g, i, j);
    lemma_mirror_cell(g, i + dr, j + dc);
    lemma_mirror_cell(g, i + 2 * dr, j + 2 * dc);
    assert(7 - (i + dr) == (7 - i) + -dr);
    assert(7 - (i + 2 * dr) == (7 - i) + 2 * -dr);
}

/// A square holds a piece with a jump exactly if the reflected square does in
/// the reflected position.
pub proof fn lemma_mirror_capture(g: Seq<Seq<char>>, t: Turn, i: int, j: int)
    ensures
        can_capture(mirror_grid(g), opponent(t), 7 - i, j) == can_capture(g, t, i, j),
{
    lemma_mirror_cell(g, i, j);
    lemma_mirror_jump(g, t, i, j, -1, -1);
    lemma_mirror_jump(g, t, i, j, -1, 1);
    lemma_mirror_jump(g, t, i, j, 1, -1);
    lemma_mirror_jump(g, t, i, j, 1, 1);
}

/// Another square holds a piece with a jump exactly if another square does
/// in the reflected position.
proof fn lemma_mirror_other(pos: Position, i: int, j: int)
    ensures
        other_can_capture(mirror(pos), 7 - i, j) == other_can_capture(pos, i, j),
{
    let m = mirror(pos);
    if other_can_capture(pos, i, j) {
        let (oi, oj) = choose|oi: int, oj: int|
            !(oi == i && oj == j) && #[trigger] can_capture(pos.grid, pos.turn, oi, oj);
        lemma_mirror_capture(pos.grid, pos.turn, oi, oj);
        assert(can_capture(m.grid, m.turn, 7 - oi, oj));
    }
    if other_can_capture(m, 7 - i, j) {
        let (oi, oj) = choose|oi: int, oj: int|
            !(oi == 7 - i && oj == j) && #[trigger] can_capture(m.grid, m.turn, oi, oj);
        lemma_mirror_capture(pos.grid, pos.turn, 7 - oi, oj);
        assert(7 - (7 - oi) == oi);
        assert(can_capture(pos.grid, pos.turn, 7 - oi, oj));
    }
}

/// A move is what its square offers along a diagonal exactly if the
/// reflected move is what the reflected square offers along the reflected
/// diagonal.
proof fn lemma_mirror_along(pos: Position, s: Step, dr: int, dc: int)
    requires
        dr == 1 || dr == -1,
        dc == 1 || dc == -1,
        on_board(s.src.0 as int, s.src.1 as int),
    ensures
        steps_along(mirror(pos), mirror_step(s), -dr, dc) == steps_along(pos, s, dr, dc),
{
    let i = s.src.0 as int;
    let j = s.src.1 as int;
    lemma_mirror_jump(pos.grid, pos.turn, i, j, dr, dc);
    lemma_mirror_capture(pos.grid, pos.turn, i, j);
    lemma_mirror_cell(pos.grid, i + dr, j + dc);
    lemma_mirror_cell(pos.grid, i + 2 * dr, j + 2 * dc);
}

/// A move obeys the rules exactly if the reflected move obeys them in the
/// reflected position.
proof fn lemma_mirror_rules(pos: Position, s: Step)
    ensures
        obeys_rules(mirror(pos), mirror_step(s)) == obeys_rules(pos, s),
{
    let i = s.src.0 as int;
    let j = s.src.1 as int;
    lemma_mirror_cell(pos.grid, i, j);
    if on_board(i, j) {
        lemma_mirror_other(pos, i, j);
        lemma_mirror_along(pos, s, -1, -1);
        lemma_mirror_along(pos, s, -1, 1);
        lemma_mirror_along(pos, s, 1, -1);
        lemma_mirror_along(pos, s, 1, 1);
    }
}

/// Symmetry: a move is legal for a square exactly if the reflected move is
/// legal for the reflected square in the reflected position. The rules by
/// which black moves toward row 0 are those by which white moves toward
/// row 7.
pub proof fn lemma_mirror_symmetry(pos: Position, i: int, j: int, s: Step)
    ensures
        legal_steps(pos, i, j).contains(s) <==> legal_steps(mirror(pos), 7 - i, j).contains(
            mirror_step(s),
        ),
{
    lemma_legal_steps_members(pos, i, j, s);
    lemma_legal_steps_members(mirror(pos), 7 - i, j, mirror_step(s));
    lemma_mirror_rules(pos, s);
}

/// Replacing a cell and reflecting the grid is reflecting the grid and
/// replacing the reflected cell by the piece of the other colour.
proof fn lemma_mirror_put(g: Seq<Seq<char>>, at: (u8, u8), c: char)
    requires
        is_grid(g),
        on_board(at.0 as int, at.1 as int),
    ensures
        is_grid(put(g, at, c)),
        put(mirror_grid(g), mirror_square(at), swap_colour(c)) == mirror_grid(put(g, at, c)),
{
    let left = put(mirror_grid(g), mirror_square(at), swap_colour(c));
    let right = mirror_grid(put(g, at, c));
    assert(left.len() == 8 && right.len() == 8);
    assert forall|i: int| 0 <= i < 8 implies #[trigger] left[i] =~= right[i] by {
        assert(put(g, at, c)[7 - i].len() == 8);
    }
    assert(left =~= right);
}

/// The grid after the reflected move on the reflected grid is the reflection
/// of the grid after the move.
proof fn lemma_mirror_landed(g: Seq<Seq<char>>, s: Step)
    requires
        is_grid(g),
        on_board(s.src.0 as int, s.src.1 as int),
        on_board(s.dst.0 as int, s.dst.1 as int),
        s.capture matches Some(c) ==> on_board(c.0 as int, c.1 as int),
    ensures
        landed(mirror_grid(g), mirror_step(s)) == mirror_grid(landed(g, s)),
{
    let piece = cell(g, s.src.0 as int, s.src.1 as int);
    let crown = crowned(piece, s.dst.0 as int);
    lemma_mirror_cell(g, s.src.0 as int, s.src.1 as int);
    assert(7 - (7 - s.src.0) == s.src.0);
    assert(cell(mirror_grid(g), mirror_row(s.src.0) as int, s.src.1 as int) == swap_colour(piece));
    assert(crowned(swap_colour(piece), mirror_row(s.dst.0) as int) == swap_colour(crown));
    let g1 = put(g, s.src, '.');
    lemma_mirror_put(g, s.src, '.');
    let g2 = put(g1, s.dst, crown);
    lemma_mirror_put(g1, s.dst, crown);
    match s.capture {
        Some(c) => {
            lemma_mirror_put(g2, c, '.');
        },
        None => {},
    }
}

/// Playing the reflected move in the reflected position gives the
/// reflection of the position that the move gives.
pub proof fn lemma_mirror_apply(pos: Position, s: Step)
    requires
        is_grid(pos.grid),
        legal(pos, s),
    ensures
        legal(mirror(pos), mirror_step(s)),
        apply_step(mirror(pos), mirror_step(s)) == mirror(apply_step(pos, s)),
{
    lemma_legal_step_squares(pos, s);
    lemma_mirror_symmetry(pos, s.src.0 as int, s.src.1 as int, s);
    lemma_mirror_landed(pos.grid, s);
    lemma_mirror_capture(landed(pos.grid, s), pos.turn, s.dst.0 as int, s.dst.1 as int);
}

} // verus!
