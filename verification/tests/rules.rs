use checkers::{Checkers, Step, StepError, Turn};

fn plain(src: (u8, u8), dst: (u8, u8)) -> Step {
    Step {
        src,
        dst,
        capture: None,
    }
}

fn jump(src: (u8, u8), over: (u8, u8), dst: (u8, u8)) -> Step {
    Step {
        src,
        dst,
        capture: Some(over),
    }
}

fn mirrored(s: &Step) -> Step {
    Step {
        src: (7 - s.src.0, s.src.1),
        dst: (7 - s.dst.0, s.dst.1),
        capture: s.capture.map(|c| (7 - c.0, c.1)),
    }
}

fn key(s: &Step) -> ((u8, u8), (u8, u8), Option<(u8, u8)>) {
    (s.src, s.dst, s.capture)
}

#[test]
fn black_man_steps_toward_row_zero() {
    let c = Checkers::from(vec!["...", ".b."], Turn::Black);
    assert_eq!(
        c.get_steps(1, 1),
        vec![plain((1, 1), (0, 0)), plain((1, 1), (0, 2))]
    );
}

#[test]
fn men_do_not_step_backward() {
    let white = Checkers::from(vec!["...", ".w."], Turn::White);
    assert_eq!(
        white.get_steps(1, 1),
        vec![plain((1, 1), (2, 0)), plain((1, 1), (2, 2))]
    );
    let black = Checkers::from(vec!["", "", "", "", "", "", "", "...b"], Turn::Black);
    assert_eq!(
        black.get_steps(7, 3),
        vec![plain((7, 3), (6, 2)), plain((7, 3), (6, 4))]
    );
    let stuck = Checkers::from(vec!["...b"], Turn::Black);
    assert_eq!(stuck.get_steps(0, 3), vec![]);
}

#[test]
fn king_steps_all_four_ways_in_order() {
    for (rows, turn) in [
        (vec!["", "", "...B"], Turn::Black),
        (vec!["", "", "...W"], Turn::White),
    ] {
        let c = Checkers::from(rows, turn);
        assert_eq!(
            c.get_steps(2, 3),
            vec![
                plain((2, 3), (1, 2)),
                plain((2, 3), (1, 4)),
                plain((2, 3), (3, 2)),
                plain((2, 3), (3, 4)),
            ]
        );
    }
}

#[test]
fn board_edge_limits_moves() {
    let c = Checkers::from(vec!["", "w"], Turn::White);
    assert_eq!(c.get_steps(1, 0), vec![plain((1, 0), (2, 1))]);
    let c = Checkers::from(vec!["", ".......B"], Turn::Black);
    assert_eq!(
        c.get_steps(1, 7),
        vec![plain((1, 7), (0, 6)), plain((1, 7), (2, 6))]
    );
}

#[test]
fn occupied_neighbours_block_plain_steps() {
    let c = Checkers::from(vec![".w.", "w.w"], Turn::White);
    assert_eq!(c.get_steps(0, 1), vec![]);
    let c = Checkers::from(vec![".w.", "b.w", ".b."], Turn::White);
    assert_eq!(c.get_steps(0, 1), vec![]);
}

#[test]
fn no_moves_for_squares_that_cannot_move() {
    let c = Checkers::new();
    assert_eq!(c.get_steps(8, 0), vec![]);
    assert_eq!(c.get_steps(0, 8), vec![]);
    assert_eq!(c.get_steps(usize::MAX, usize::MAX), vec![]);
    assert_eq!(c.get_steps(4, 1), vec![]);
    assert_eq!(c.get_steps(2, 1), vec![]);
    assert_eq!(
        c.get_steps(5, 2),
        vec![plain((5, 2), (4, 1)), plain((5, 2), (4, 3))]
    );
}

#[test]
fn king_jumps_backward_and_man_does_not() {
    let c = Checkers::from(vec!["....", "..b.", "...W"], Turn::White);
    assert_eq!(c.get_steps(2, 3), vec![jump((2, 3), (1, 2), (0, 1))]);
    let c = Checkers::from(vec!["....", "..b.", "...w"], Turn::White);
    assert_eq!(
        c.get_steps(2, 3),
        vec![plain((2, 3), (3, 2)), plain((2, 3), (3, 4))]
    );
}

#[test]
fn jumps_come_in_direction_order() {
    let c = Checkers::from(
        vec![
            ".....", //
            ".w.w.", //
            "..B..", //
            ".w.W.", //
            ".....", //
        ],
        Turn::Black,
    );
    assert_eq!(
        c.get_steps(2, 2),
        vec![
            jump((2, 2), (1, 1), (0, 0)),
            jump((2, 2), (1, 3), (0, 4)),
            jump((2, 2), (3, 1), (4, 0)),
            jump((2, 2), (3, 3), (4, 4)),
        ]
    );
}

#[test]
fn own_pieces_are_not_jumped() {
    let c = Checkers::from(vec![".w..", "..w.", "...."], Turn::White);
    assert_eq!(c.get_steps(0, 1), vec![plain((0, 1), (1, 0))]);
}

#[test]
fn jump_needs_a_landing_square_on_the_board() {
    let c = Checkers::from(vec!["......w.", ".......b"], Turn::White);
    assert_eq!(c.get_steps(0, 6), vec![plain((0, 6), (1, 5))]);
    let c = Checkers::from(vec!["", "", "", "", "", "", ".w", "b."], Turn::White);
    assert_eq!(c.get_steps(6, 1), vec![plain((6, 1), (7, 2))]);
}

#[test]
fn a_piece_with_a_jump_must_jump() {
    let c = Checkers::from(vec!["....", "..w.", ".b..", "...."], Turn::Black);
    assert_eq!(c.get_steps(2, 1), vec![jump((2, 1), (1, 2), (0, 3))]);
}

#[test]
fn a_jump_elsewhere_leaves_other_pieces_without_moves() {
    let c = Checkers::from(
        vec![
            "........", //
            "..w.....", //
            ".b...b..", //
        ],
        Turn::Black,
    );
    assert_eq!(c.get_steps(2, 5), vec![]);
    assert_eq!(c.get_steps(2, 1), vec![jump((2, 1), (1, 2), (0, 3))]);
}

#[test]
fn every_piece_with_a_jump_keeps_it() {
    let c = Checkers::from(
        vec![
            ".w...w..", //
            "..b...b.", //
            "........", //
        ],
        Turn::White,
    );
    assert_eq!(c.get_steps(0, 1), vec![jump((0, 1), (1, 2), (2, 3))]);
    assert_eq!(c.get_steps(0, 5), vec![jump((0, 5), (1, 6), (2, 7))]);
}

#[test]
fn the_other_side_has_no_moves_out_of_turn() {
    let c = Checkers::from(vec![".w.", "...", ".b."], Turn::White);
    assert_eq!(c.get_steps(2, 1), vec![]);
    let c = Checkers::from(vec![".w.", "...", ".b."], Turn::Black);
    assert_eq!(c.get_steps(0, 1), vec![]);
}

fn count_mirrored_moves(black: &Checkers, white: &Checkers) -> usize {
    let mut found: usize = 0;
    for i in 0..8 {
        for j in 0..8 {
            let mut ours: Vec<Step> = black.get_steps(i, j).iter().map(mirrored).collect();
            let mut theirs = white.get_steps(7 - i, j);
            found += ours.len();
            ours.sort_by_key(key);
            theirs.sort_by_key(key);
            assert_eq!(ours, theirs, "square ({}, {})", i, j);
        }
    }
    found
}

#[test]
fn jumps_mirror_across_the_horizontal_axis() {
    let black = Checkers::from(
        vec![
            "........", //
            ".....w..", //
            "...w..B.", //
            "..b.....", //
            ".......w", //
            "b.....b.", //
        ],
        Turn::Black,
    );
    let white = Checkers::from(
        vec![
            "........", //
            "........", //
            "w.....w.", //
            ".......b", //
            "..w.....", //
            "...b..W.", //
            ".....b..", //
            "........", //
        ],
        Turn::White,
    );
    assert_eq!(count_mirrored_moves(&black, &white), 2);
    assert_eq!(black.get_steps(3, 2), vec![jump((3, 2), (2, 3), (1, 4))]);
    assert_eq!(white.get_steps(4, 2), vec![jump((4, 2), (5, 3), (6, 4))]);
    assert_eq!(black.get_steps(2, 6), vec![jump((2, 6), (1, 5), (0, 4))]);
    assert_eq!(white.get_steps(5, 6), vec![jump((5, 6), (6, 5), (7, 4))]);
    assert_eq!(black.get_steps(5, 6), vec![]);
    assert_eq!(white.get_steps(2, 6), vec![]);
}

#[test]
fn plain_steps_mirror_across_the_horizontal_axis() {
    let black = Checkers::from(
        vec![
            "........", //
            "..w.....", //
            "........", //
            "....B...", //
            "........", //
            "b.....b.", //
        ],
        Turn::Black,
    );
    let white = Checkers::from(
        vec![
            "........", //
            "........", //
            "w.....w.", //
            "........", //
            "....W...", //
            "........", //
            "..b.....", //
            "........", //
        ],
        Turn::White,
    );
    assert_eq!(count_mirrored_moves(&black, &white), 7);
    assert_eq!(
        black.get_steps(5, 6),
        vec![plain((5, 6), (4, 5)), plain((5, 6), (4, 7))]
    );
    assert_eq!(
        white.get_steps(2, 6),
        vec![plain((2, 6), (3, 5)), plain((2, 6), (3, 7))]
    );
    assert_eq!(
        black.get_steps(3, 4),
        vec![
            plain((3, 4), (2, 3)),
            plain((3, 4), (2, 5)),
            plain((3, 4), (4, 3)),
            plain((3, 4), (4, 5)),
        ]
    );
    assert_eq!(
        white.get_steps(4, 4),
        vec![
            plain((4, 4), (3, 3)),
            plain((4, 4), (3, 5)),
            plain((4, 4), (5, 3)),
            plain((4, 4), (5, 5)),
        ]
    );
}

#[test]
fn plain_step_moves_the_piece_and_passes_the_turn() {
    let mut c = Checkers::new();
    c.make_step(plain((5, 2), (4, 3)));
    assert_eq!(c.at(5, 2), '.');
    assert_eq!(c.at(4, 3), 'b');
    assert_eq!(c.get_turn(), 'w');
    assert_eq!(c.in_step, None);
    assert_eq!(
        c.to_text(),
        ".w.w.w.w\nw.w.w.w.\n.w.w.w.w\n........\n...b....\nb...b.b.\n.b.b.b.b\nb.b.b.b.\n"
    );
    c.make_step(plain((2, 1), (3, 2)));
    assert_eq!(c.get_turn(), 'b');
    assert_eq!(c.get_steps(4, 3), vec![jump((4, 3), (3, 2), (2, 1))]);
}

#[test]
fn jump_sequence_locks_every_other_square() {
    let mut c = Checkers::from(
        vec![
            ".w....", //
            "..b.b.", //
            ".....w", //
            "..b.b.", //
            "......", //
        ],
        Turn::White,
    );
    c.make_step(jump((0, 1), (1, 2), (2, 3)));
    assert_eq!(c.turn, Turn::White);
    assert_eq!(c.in_step, Some((2, 3)));
    assert_eq!(c.at(1, 2), '.');
    assert_eq!(c.at(0, 1), '.');
    assert_eq!(c.at(2, 3), 'w');
    for i in 0..8 {
        for j in 0..8 {
            if (i, j) != (2, 3) {
                assert_eq!(c.get_steps(i, j), vec![], "square ({}, {})", i, j);
            }
        }
    }
    assert_eq!(c.get_steps(1, 0), vec![]);
    assert_eq!(c.get_steps(1, 2), vec![]);
    assert_eq!(
        c.get_steps(2, 3),
        vec![jump((2, 3), (3, 2), (4, 1)), jump((2, 3), (3, 4), (4, 5))]
    );
    c.make_step(jump((2, 3), (3, 4), (4, 5)));
    assert_eq!(c.turn, Turn::Black);
    assert_eq!(c.in_step, None);
    assert_eq!(
        c.to_text(),
        "........\n....b...\n.....w..\n..b.....\n.....w..\n........\n........\n........\n"
    );
}

#[test]
fn jumping_piece_may_not_take_a_plain_step() {
    let mut c = Checkers::from(
        vec![
            ".w..", //
            "..b.", //
            "....", //
            "..b.", //
            "....", //
        ],
        Turn::White,
    );
    c.make_step(jump((0, 1), (1, 2), (2, 3)));
    assert_eq!(c.get_steps(2, 3), vec![jump((2, 3), (3, 2), (4, 1))]);
    assert_eq!(
        c.try_make_step(plain((2, 3), (3, 4))),
        Err(StepError::Illegal)
    );
    assert_eq!(c.in_step, Some((2, 3)));
}

#[test]
fn man_reaching_the_far_row_is_crowned() {
    let mut white = Checkers::from(vec!["", "", "", "", "", "", "..w"], Turn::White);
    white.make_step(plain((6, 2), (7, 3)));
    assert_eq!(white.at(7, 3), 'W');
    assert_eq!(white.at(6, 2), '.');
    assert_eq!(white.get_turn(), 'b');

    let mut black = Checkers::from(vec!["...", ".w.", "b.."], Turn::Black);
    black.make_step(jump((2, 0), (1, 1), (0, 2)));
    assert_eq!(black.at(0, 2), 'B');
    assert_eq!(black.at(1, 1), '.');
    assert_eq!(black.get_turn(), 'w');
}

#[test]
fn kings_and_men_short_of_the_far_row_are_not_changed() {
    let mut c = Checkers::from(vec!["", "..B.", "...."], Turn::Black);
    c.make_step(plain((1, 2), (0, 1)));
    assert_eq!(c.at(0, 1), 'B');
    c.turn = Turn::Black;
    c.make_step(plain((0, 1), (1, 0)));
    assert_eq!(c.at(1, 0), 'B');

    let mut c = Checkers::from(vec!["", "", "..b."], Turn::Black);
    c.make_step(plain((2, 2), (1, 1)));
    assert_eq!(c.at(1, 1), 'b');

    let mut c = Checkers::from(vec!["", "", "", "", "", "", "", "W"], Turn::White);
    c.make_step(plain((7, 0), (6, 1)));
    assert_eq!(c.at(6, 1), 'W');
}

#[test]
fn man_crowned_by_a_jump_goes_on_as_a_king() {
    let mut c = Checkers::from(
        vec![
            "........", //
            "........", //
            "........", //
            "........", //
            "........", //
            "..w.....", //
            "...b.b..", //
            "........", //
        ],
        Turn::White,
    );
    c.make_step(jump((5, 2), (6, 3), (7, 4)));
    assert_eq!(c.at(7, 4), 'W');
    assert_eq!(c.at(6, 3), '.');
    assert_eq!(c.turn, Turn::White);
    assert_eq!(c.in_step, Some((7, 4)));
    assert_eq!(c.get_steps(7, 4), vec![jump((7, 4), (6, 5), (5, 6))]);
    assert_eq!(c.get_steps(6, 5), vec![]);
    c.make_step(jump((7, 4), (6, 5), (5, 6)));
    assert_eq!(c.turn, Turn::Black);
    assert_eq!(c.in_step, None);
    assert_eq!(
        c.to_text(),
        "........\n........\n........\n........\n........\n......W.\n........\n........\n"
    );
}

#[test]
fn white_man_crowned_mid_sequence_keeps_the_turn() {
    let mut c = Checkers::from(vec!["", "", "", "", "", ".w", "..b.b"], Turn::White);
    c.make_step(Step {
        src: (5, 1),
        dst: (7, 3),
        capture: Some((6, 2)),
    });
    assert_eq!(c.at(7, 3), 'W');
    assert_eq!(c.at(6, 2), '.');
    assert_eq!(c.get_turn(), 'w');
    assert_eq!(
        c.get_steps(7, 3),
        vec![Step {
            src: (7, 3),
            dst: (5, 5),
            capture: Some((6, 4))
        }]
    );
}

#[test]
fn black_man_crowned_mid_sequence_keeps_the_turn() {
    let mut c = Checkers::from(vec!["....", ".w.w", "b..."], Turn::Black);
    c.make_step(jump((2, 0), (1, 1), (0, 2)));
    assert_eq!(c.at(0, 2), 'B');
    assert_eq!(c.get_turn(), 'b');
    assert_eq!(c.in_step, Some((0, 2)));
    assert_eq!(c.get_steps(0, 2), vec![jump((0, 2), (1, 3), (2, 4))]);
    assert_eq!(c.try_make_step(plain((0, 2), (1, 1))), Err(StepError::Illegal));
    c.make_step(jump((0, 2), (1, 3), (2, 4)));
    assert_eq!(c.at(2, 4), 'B');
    assert_eq!(c.get_turn(), 'w');
}

#[test]
fn crowning_jump_without_a_further_jump_passes_the_turn() {
    let mut c = Checkers::from(vec!["", "", "", "", "", ".w", "..b."], Turn::White);
    c.make_step(jump((5, 1), (6, 2), (7, 3)));
    assert_eq!(c.at(7, 3), 'W');
    assert_eq!(c.turn, Turn::Black);
    assert_eq!(c.in_step, None);
    assert_eq!(c.get_steps(7, 3), vec![]);
}

#[test]
fn turn_passes_after_a_jump_without_a_further_jump() {
    let mut c = Checkers::from(vec!["....", "..w.", ".b..", "...."], Turn::Black);
    c.make_step(jump((2, 1), (1, 2), (0, 3)));
    assert_eq!(c.turn, Turn::White);
    assert_eq!(c.in_step, None);
    assert_eq!(c.at(0, 3), 'B');
}

#[test]
fn turn_stays_while_the_piece_can_jump_again() {
    let mut c = Checkers::from(
        vec![
            "......", //
            "..w...", //
            "......", //
            "..w...", //
            ".b....", //
        ],
        Turn::Black,
    );
    c.make_step(jump((4, 1), (3, 2), (2, 3)));
    assert_eq!(c.turn, Turn::Black);
    assert_eq!(c.get_turn(), 'b');
    assert_eq!(c.in_step, Some((2, 3)));
    assert_eq!(c.get_steps(2, 3), vec![jump((2, 3), (1, 2), (0, 1))]);
    c.make_step(jump((2, 3), (1, 2), (0, 1)));
    assert_eq!(c.turn, Turn::White);
    assert_eq!(c.at(0, 1), 'B');
}

#[test]
fn legal_move_is_played_when_tried() {
    let mut c = Checkers::new();
    assert_eq!(c.try_make_step(plain((5, 0), (4, 1))), Ok(()));
    assert_eq!(c.at(4, 1), 'b');
    assert_eq!(c.at(5, 0), '.');
    assert_eq!(c.turn, Turn::White);
}

#[test]
fn illegal_moves_are_refused_and_change_nothing() {
    let mut c = Checkers::from(
        vec![
            ".w...w", //
            "..b...", //
            "......", //
        ],
        Turn::White,
    );
    let before = c.to_text();
    let refused = [
        plain((0, 5), (1, 4)),
        plain((0, 1), (1, 0)),
        jump((0, 1), (1, 2), (2, 4)),
        jump((0, 1), (1, 0), (2, 3)),
        jump((0, 5), (1, 2), (2, 3)),
        plain((1, 2), (0, 3)),
        plain((2, 2), (3, 3)),
        plain((200, 200), (201, 201)),
        plain((0, 1), (255, 0)),
        jump((0, 1), (1, 2), (0, 1)),
    ];
    for s in refused {
        assert_eq!(c.try_make_step(s), Err(StepError::Illegal), "{:?}", s);
        assert_eq!(c.to_text(), before);
        assert_eq!(c.turn, Turn::White);
        assert_eq!(c.in_step, None);
    }
    assert_eq!(c.try_make_step(jump((0, 1), (1, 2), (2, 3))), Ok(()));
    assert_eq!(c.turn, Turn::Black);
}
