use checkers::{board_to_string, make_board, Checkers, Step, Turn};

#[test]
fn no_rows_give_an_empty_board() {
    let board = make_board(vec![]);
    assert_eq!(board, [['.'; 8]; 8]);
    assert_eq!(board_to_string(&board), "........\n".repeat(8));
}

#[test]
fn short_rows_are_filled_with_empty_cells() {
    let board = make_board(vec!["b", "", ".wW"]);
    assert_eq!(board[0], ['b', '.', '.', '.', '.', '.', '.', '.']);
    assert_eq!(board[1], ['.'; 8]);
    assert_eq!(board[2], ['.', 'w', 'W', '.', '.', '.', '.', '.']);
    for row in 3..8 {
        assert_eq!(board[row], ['.'; 8]);
    }
}

#[test]
fn board_text_has_one_line_per_row() {
    let board = make_board(vec![".w", "b.B", "", "...W"]);
    let text = board_to_string(&board);
    assert_eq!(
        text,
        ".w......\nb.B.....\n........\n...W....\n........\n........\n........\n........\n"
    );
    assert_eq!(text.len(), 72);
}

#[test]
fn full_rows_round_trip_through_text() {
    let rows = vec![
        ".w.w.w.W", //
        "w.......", //
        "..B.....", //
        "........", //
        ".b.b....", //
        "b.b.b.b.", //
        ".......b", //
        "B.b.b.b.", //
    ];
    let text = board_to_string(&make_board(rows.clone()));
    let lines: Vec<&str> = text.lines().collect();
    assert_eq!(lines, rows);
    assert!(text.ends_with('\n'));
    assert_eq!(make_board(lines), make_board(rows));
}

#[test]
fn opening_position_is_the_standard_layout() {
    let c = Checkers::new();
    assert_eq!(
        c.to_text(),
        ".w.w.w.w\nw.w.w.w.\n.w.w.w.w\n........\n........\nb.b.b.b.\n.b.b.b.b\nb.b.b.b.\n"
    );
    assert_eq!(c.get_turn(), 'b');
    assert_eq!(c.turn, Turn::Black);
    assert_eq!(c.in_step, None);
    for i in 0..8 {
        for j in 0..8 {
            let expect = if (i + j) % 2 == 0 {
                '.'
            } else if i < 3 {
                'w'
            } else if i > 4 {
                'b'
            } else {
                '.'
            };
            assert_eq!(c.at(i, j), expect, "square ({}, {})", i, j);
        }
    }
}

#[test]
fn at_reads_every_kind_of_cell() {
    let c = Checkers::from(vec!["bBwW."], Turn::Black);
    assert_eq!(c.at(0, 0), 'b');
    assert_eq!(c.at(0, 1), 'B');
    assert_eq!(c.at(0, 2), 'w');
    assert_eq!(c.at(0, 3), 'W');
    assert_eq!(c.at(0, 4), '.');
    assert_eq!(c.at(7, 7), '.');
}

#[test]
fn at_marks_squares_off_the_board() {
    let c = Checkers::new();
    assert_eq!(c.at(-1, 0), '?');
    assert_eq!(c.at(0, -1), '?');
    assert_eq!(c.at(8, 0), '?');
    assert_eq!(c.at(0, 8), '?');
    assert_eq!(c.at(isize::MIN, isize::MAX), '?');
}

#[test]
fn turn_is_reported_as_a_letter() {
    assert_eq!(Checkers::from(vec![], Turn::Black).get_turn(), 'b');
    assert_eq!(Checkers::from(vec![], Turn::White).get_turn(), 'w');
}

#[test]
fn to_text_writes_the_board() {
    let c = Checkers::from(vec!["..", "b."], Turn::Black);
    assert_eq!(c.to_text(), board_to_string(&c.board));
    assert_eq!(
        c.to_text(),
        "........\nb.......\n........\n........\n........\n........\n........\n........\n"
    );
}

#[test]
fn step_getters_read_the_squares() {
    let s = Step {
        src: (1, 2),
        dst: (3, 4),
        capture: Some((2, 3)),
    };
    assert_eq!(s.src_i(), 1);
    assert_eq!(s.src_j(), 2);
    assert_eq!(s.dst_i(), 3);
    assert_eq!(s.dst_j(), 4);
}
