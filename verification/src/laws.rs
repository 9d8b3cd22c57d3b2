use crate::board::{cell, holds_cells, is_cell, is_grid, on_board};
use crate::rules::{
    apply_step, can_capture, can_jump, continues, crowned, initial_position, is_capture_set,
    jump_in, jumps, legal, legal_steps, local_steps, may_move, obeys_rules, opponent, owns,
    plain_in, plains, Position, Step, Turn,
};
use vstd::prelude::*;

verus! {

/// A square has a jump exactly if one of the four directions offers one, and
/// every move among its jumps records the piece it takes.
pub proof fn lemma_jumps(g: Seq<Seq<char>>, t: Turn, i: int, j: int)
    ensures
        jumps(g, t, i, j).len() > 0 <==> (can_jump(g, t, i, j, -1, -1) || can_jump(
            g,
            t,
            i,
            j,
            -1,
            1,
        ) || can_jump(g, t, i, j, 1, -1) || can_jump(g, t, i, j, 1, 1)),
        forall|k: int|
            0 <= k < jumps(g, t, i, j).len() ==> (#[trigger] jumps(g, t, i, j)[k]).capture is Some,
{
}

/// No plain step records a taken piece.
pub proof fn lemma_plains(g: Seq<Seq<char>>, i: int, j: int)
    ensures
        forall|k: int|
            0 <= k < plains(g, i, j).len() ==> (#[trigger] plains(g, i, j)[k]).capture is None,
{
}

/// The moves of a square taken by itself are jumps exactly if its piece may be
/// moved now and has a jump.
pub proof fn lemma_capture_set(pos: Position, i: int, j: int)
    ensures
        is_capture_set(local_steps(pos, i, j)) <==> may_move(pos, i, j) && can_capture(
            pos.grid,
            pos.turn,
            i,
            j,
        ),
{
    lemma_jumps(pos.grid, pos.turn, i, j);
    lemma_plains(pos.grid, i, j);
}

/// The legal moves of a square are exactly the moves from that square that
/// obey the rules.
pub proof fn lemma_legal_steps_members(pos: Position, i: int, j: int, s: Step)
    ensures
        legal_steps(pos, i, j).contains(s) <==> s.src.0 == i && s.src.1 == j && obeys_rules(
            pos,
            s,
        ),
{
    let g = pos.grid;
    let t = pos.turn;
    let steps = legal_steps(pos, i, j);
    lemma_jumps(g, t, i, j);
    lemma_plains(g, i, j);
    lemma_capture_set(pos, i, j);
    if steps.contains(s) {
        let k = choose|k: int| 0 <= k < steps.len() && steps[k] == s;
        assert(steps[k] == s);
        assert(obeys_rules(pos, s));
    }
    if s.src.0 == i && s.src.1 == j && obeys_rules(pos, s) {
        lemma_singleton_contains(s);
        if s.capture is Some {
            lemma_member_of_four(
                jump_in(g, t, i, j, -1, -1),
                jump_in(g, t, i, j, -1, 1),
                jump_in(g, t, i, j, 1, -1),
                jump_in(g, t, i, j, 1, 1),
                s,
            );
            assert(jumps(g, t, i, j).contains(s));
        } else {
            lemma_member_of_four(
                plain_in(g, i, j, -1, -1),
                plain_in(g, i, j, -1, 1),
                plain_in(g, i, j, 1, -1),
                plain_in(g, i, j, 1, 1),
                s,
            );
            assert(plains(g, i, j).contains(s));
        }
    }
}

/// While a jump sequence is open, the jumping piece has a legal move exactly
/// if it has a jump, and its legal moves are its jumps.
pub proof fn lemma_open_sequence(pos: Position, i: int, j: int)
    requires
        pos.in_step == Some((i as u8, j as u8)),
        on_board(i, j),
    ensures
        legal_steps(pos, i, j).len() > 0 <==> can_capture(pos.grid, pos.turn, i, j),
        legal_steps(pos, i, j).len() > 0 ==> legal_steps(pos, i, j) == jumps(
            pos.grid,
            pos.turn,
            i,
            j,
        ),
{
    lemma_jumps(pos.grid, pos.turn, i, j);
    lemma_capture_set(pos, i, j);
}

/// Every legal move stays on the board: it takes a piece of the side to move
/// to an empty square one or two cells away along a diagonal, and a jump
/// passes over a piece of the other side, halfway.
pub proof fn lemma_legal_step_squares(pos: Position, s: Step)
    requires
        legal(pos, s),
    ensures
        owns(pos.turn, cell(pos.grid, s.src.0 as int, s.src.1 as int)),
        cell(pos.grid, s.dst.0 as int, s.dst.1 as int) == '.',
        match s.capture {
            Some(c) => {
                &&& owns(opponent(pos.turn), cell(pos.grid, c.0 as int, c.1 as int))
                &&& 2 * c.0 == s.src.0 + s.dst.0
                &&& 2 * c.1 == s.src.1 + s.dst.1
                &&& (s.dst.0 == s.src.0 + 2 || s.dst.0 + 2 == s.src.0)
                &&& (s.dst.1 == s.src.1 + 2 || s.dst.1 + 2 == s.src.1)
            },
            None => {
                &&& (s.dst.0 == s.src.0 + 1 || s.dst.0 + 1 == s.src.0)
                &&& (s.dst.1 == s.src.1 + 1 || s.dst.1 + 1 == s.src.1)
            },
        },
{
    lemma_legal_steps_members(pos, s.src.0 as int, s.src.1 as int, s);
}

/// Capture is mandatory: while a piece of the side to move has a jump, a
/// square other than that piece's, whose own piece has no jump, has no legal
/// move.
pub proof fn lemma_capture_mandatory(pos: Position, i: int, j: int, oi: int, oj: int)
    requires
        can_capture(pos.grid, pos.turn, oi, oj),
        !(oi == i && oj == j),
        !can_capture(pos.grid, pos.turn, i, j),
    ensures
        legal_steps(pos, i, j) == Seq::<Step>::empty(),
{
    lemma_capture_set(pos, i, j);
}

/// While a jump sequence is open, every square but that of the jumping piece
/// has no legal move.
pub proof fn lemma_only_jumper_moves(pos: Position, i: int, j: int)
    requires
        pos.in_step matches Some(p) && !(p.0 == i && p.1 == j),
    ensures
        legal_steps(pos, i, j) == Seq::<Step>::empty(),
{
}

/// Sequence lock: after a jump that leaves the piece, crowned or not, a
/// further jump, the same side is to move, the sequence is open on the
/// landing square, the landed piece has its jumps as legal moves, and every
/// other square has no legal move.
pub proof fn lemma_sequence_lock(pos: Position, s: Step, i: int, j: int)
    requires
        is_grid(pos.grid),
        legal(pos, s),
        continues(pos, s),
    ensures
        apply_step(pos, s).in_step == Some(s.dst),
        apply_step(pos, s).turn == pos.turn,
        !(i == s.dst.0 && j == s.dst.1) ==> legal_steps(apply_step(pos, s), i, j) == Seq::<
            Step,
        >::empty(),
        legal_steps(apply_step(pos, s), s.dst.0 as int, s.dst.1 as int) == jumps(
            apply_step(pos, s).grid,
            pos.turn,
            s.dst.0 as int,
            s.dst.1 as int,
        ),
        legal_steps(apply_step(pos, s), s.dst.0 as int, s.dst.1 as int).len() > 0,
{
    lemma_legal_step_squares(pos, s);
    lemma_open_sequence(apply_step(pos, s), s.dst.0 as int, s.dst.1 as int);
}

/// Promotion: a man that a legal move lands on the farthest row stands there
/// as a king once the move is made; any other piece stands there unchanged.
pub proof fn lemma_promotion(pos: Position, s: Step)
    requires
        is_grid(pos.grid),
        legal(pos, s),
    ensures
        cell(pos.grid, s.src.0 as int, s.src.1 as int) == 'w' && s.dst.0 == 7 ==> cell(
            apply_step(pos, s).grid,
            s.dst.0 as int,
            s.dst.1 as int,
        ) == 'W',
        cell(pos.grid, s.src.0 as int, s.src.1 as int) == 'b' && s.dst.0 == 0 ==> cell(
            apply_step(pos, s).grid,
            s.dst.0 as int,
            s.dst.1 as int,
        ) == 'B',
        cell(apply_step(pos, s).grid, s.dst.0 as int, s.dst.1 as int) == crowned(
            cell(pos.grid, s.src.0 as int, s.src.1 as int),
            s.dst.0 as int,
        ),
{
    lemma_legal_step_squares(pos, s);
    lemma_legal_steps_members(pos, s.src.0 as int, s.src.1 as int, s);
}

/// Turn alternation: a plain step always passes the turn; a jump passes it
/// exactly if the piece on the landing square, crowned if that was due, has
/// no further jump. Where the turn passes no jump sequence is open; where it
/// does not, one is open on the landing square.
pub proof fn lemma_turn_alternation(pos: Position, s: Step)
    ensures
        s.capture is None ==> apply_step(pos, s).turn == opponent(pos.turn),
        s.capture is Some ==> (apply_step(pos, s).turn == opponent(pos.turn) <==> !can_capture(
            apply_step(pos, s).grid,
            pos.turn,
            s.dst.0 as int,
            s.dst.1 as int,
        )),
        apply_step(pos, s).turn == opponent(pos.turn) ==> apply_step(pos, s).in_step is None,
        apply_step(pos, s).turn == pos.turn ==> apply_step(pos, s).in_step == Some(s.dst),
{
}

/// After a legal jump the side that jumped is still to move exactly if the
/// landing square then has a legal move, and that move is a jump of the
/// piece that landed.
pub proof fn lemma_jump_goes_on(pos: Position, s: Step)
    requires
        is_grid(pos.grid),
        legal(pos, s),
        s.capture is Some,
    ensures
        apply_step(pos, s).turn == pos.turn <==> can_capture(
            apply_step(pos, s).grid,
            pos.turn,
            s.dst.0 as int,
            s.dst.1 as int,
        ),
        apply_step(pos, s).turn == pos.turn ==> legal_steps(
            apply_step(pos, s),
            s.dst.0 as int,
            s.dst.1 as int,
        ) == jumps(apply_step(pos, s).grid, pos.turn, s.dst.0 as int, s.dst.1 as int),
{
    if continues(pos, s) {
        lemma_sequence_lock(pos, s, 0, 0);
    }
}

/// A legal move changes the squares it names and no other: the source and
/// the jumped square become empty, and the landing square holds the moved
/// piece, crowned where that is due.
pub proof fn lemma_step_changes(pos: Position, s: Step, i: int, j: int)
    requires
        is_grid(pos.grid),
        legal(pos, s),
    ensures
        is_grid(apply_step(pos, s).grid),
        cell(apply_step(pos, s).grid, i, j) == (if i == s.dst.0 && j == s.dst.1 {
            crowned(cell(pos.grid, s.src.0 as int, s.src.1 as int), s.dst.0 as int)
        } else if i == s.src.0 && j == s.src.1 {
            '.'
        } else if s.capture matches Some(c) && i == c.0 && j == c.1 {
            '.'
        } else {
            cell(pos.grid, i, j)
        }),
{
    lemma_legal_step_squares(pos, s);
    lemma_legal_steps_members(pos, s.src.0 as int, s.src.1 as int, s);
}

/// A legal move leaves every square with one of the five cell values.
pub proof fn lemma_step_keeps_cells(pos: Position, s: Step)
    requires
        is_grid(pos.grid),
        holds_cells(pos.grid),
        legal(pos, s),
    ensures
        is_grid(apply_step(pos, s).grid),
        holds_cells(apply_step(pos, s).grid),
{
    let next = apply_step(pos, s).grid;
    lemma_step_changes(pos, s, 0, 0);
    lemma_legal_step_squares(pos, s);
    assert(is_cell(cell(pos.grid, s.src.0 as int, s.src.1 as int)));
    assert forall|i: int, j: int| on_board(i, j) implies is_cell(#[trigger] cell(next, i, j)) by {
        lemma_step_changes(pos, s, i, j);
        assert(is_cell(cell(pos.grid, i, j)));
    }
}

/// The opening position is a grid of cell values in which black is to move,
/// no jump sequence is open and no piece has a jump.
pub proof fn lemma_initial_position()
    ensures
        is_grid(initial_position().grid),
        holds_cells(initial_position().grid),
        initial_position().turn == Turn::Black,
        initial_position().in_step is None,
        forall|i: int, j: int|
            !#[trigger] can_capture(initial_position().grid, initial_position().turn, i, j),
{
    let g = initial_position().grid;
    assert forall|i: int, j: int| on_board(i, j) implies is_cell(#[trigger] cell(g, i, j)) by {}
    assert forall|i: int, j: int| !#[trigger] can_capture(g, Turn::Black, i, j) by {
        if can_capture(g, Turn::Black, i, j) {
            assert(on_board(i, j) && i > 4);
            assert(!owns(Turn::White, cell(g, i - 1, j - 1)));
            assert(!owns(Turn::White, cell(g, i - 1, j + 1)));
        }
    }
}

proof fn lemma_singleton_contains(s: Step)
    ensures
        seq![s].contains(s),
{
    assert(seq![s][0] == s);
}

proof fn lemma_member_of_four(a: Seq<Step>, b: Seq<Step>, c: Seq<Step>, d: Seq<Step>, s: Step)
    ensures
        (a + b + c + d).contains(s) <==> a.contains(s) || b.contains(s) || c.contains(s)
            || d.contains(s),
{
    let all = a + b + c + d;
    if a.contains(s) {
        let k = choose|k: int| 0 <= k < a.len() && a[k] == s;
        assert(all[k] == s);
    }
    if b.contains(s) {
        let k = choose|k: int| 0 <= k < b.len() && b[k] == s;
        assert(all[a.len() + k] == s);
    }
    if c.contains(s) {
        let k = choose|k: int| 0 <= k < c.len() && c[k] == s;
        assert(all[a.len() + b.len() + k] == s);
    }
    if d.contains(s) {
        let k = choose|k: int| 0 <= k < d.len() && d[k] == s;
        assert(all[a.len() + b.len() + c.len() + k] == s);
    }
    if all.contains(s) {
        let k = choose|k: int| 0 <= k < all.len() && all[k] == s;
        if k < a.len() {
            assert(a[k] == s);
        } else if k < a.len() + b.len() {
            assert(b[k - a.len()] == s);
        } else if k < a.len() + b.len() + c.len() {
            assert(c[k - a.len() - b.len()] == s);
        } else {
            assert(d[k - a.len() - b.len() - c.len()] == s);
        }
    }
}

} // verus!
