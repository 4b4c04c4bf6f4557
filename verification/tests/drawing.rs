use snake_rs::ansi::{draw_char, push_decimal};
use snake_rs::options::{launch, select_color, Launch};
use snake_rs::placement::{accept_draw, count_occupied, free_cells, is_occupied, pick_cell, place_random};
use snake_rs::render::{draw_area, draw_border, draw_fruit, draw_snake, get_pipe_char, Glyph};
use snake_rs::snake::{Direction, Segment};

fn glyph(x: i32, y: i32, symbol: char, color: i32) -> Glyph {
    Glyph { x, y, symbol, color }
}

fn args(list: &[&str]) -> Vec<String> {
    list.iter().map(|s| s.to_string()).collect()
}

#[test]
fn pipe_char_covers_every_pair() {
    let expected = [
        ['┃', '┏', '━', '┓'],
        ['┛', '━', '┓', '━'],
        ['━', '┗', '┃', '┛'],
        ['┗', '━', '┏', '━'],
    ];
    for from in 0..4 {
        for to in 0..4 {
            assert_eq!(get_pipe_char(from, to), expected[from as usize][to as usize]);
        }
    }
}

#[test]
fn pipe_char_defaults_to_flat_bar() {
    assert_eq!(get_pipe_char(0, 2), '━');
    assert_eq!(get_pipe_char(2, 0), '━');
    assert_eq!(get_pipe_char(7, 1), '━');
    assert_eq!(get_pipe_char(-1, -1), '━');
}

#[test]
fn border_of_smallest_field() {
    let out = draw_border(3, 3, 32);
    let expected = vec![
        glyph(0, 0, '┏', 32),
        glyph(0, 2, '┗', 32),
        glyph(1, 0, '━', 32),
        glyph(1, 2, '━', 32),
        glyph(2, 0, '┓', 32),
        glyph(2, 2, '┛', 32),
        glyph(0, 1, '┃', 32),
        glyph(2, 1, '┃', 32),
    ];
    assert_eq!(out, expected);
}

#[test]
fn border_has_two_glyphs_per_column_and_inner_row() {
    let out = draw_border(80, 24, 31);
    assert_eq!(out.len(), 2 * 80 + 2 * 22);
    assert_eq!(out[0], glyph(0, 0, '┏', 31));
    assert_eq!(out[1], glyph(0, 23, '┗', 31));
    assert_eq!(out[158], glyph(79, 0, '┓', 31));
    assert_eq!(out[159], glyph(79, 23, '┛', 31));
    assert_eq!(out[160], glyph(0, 1, '┃', 31));
    assert_eq!(out[203], glyph(79, 22, '┃', 31));
}

#[test]
fn border_of_empty_field_is_empty() {
    assert!(draw_border(0, 0, 31).is_empty());
    assert!(draw_border(-4, 2, 31).is_empty());
}

#[test]
fn area_fills_the_interior_column_by_column() {
    let out = draw_area(4, 5, 90);
    let expected = vec![
        glyph(1, 1, '+', 90),
        glyph(1, 2, '+', 90),
        glyph(1, 3, '+', 90),
        glyph(2, 1, '+', 90),
        glyph(2, 2, '+', 90),
        glyph(2, 3, '+', 90),
    ];
    assert_eq!(out, expected);
}

#[test]
fn area_without_interior_is_empty() {
    assert!(draw_area(2, 10, 90).is_empty());
    assert!(draw_area(10, 2, 90).is_empty());
    assert!(draw_area(0, 0, 90).is_empty());
}

#[test]
fn snake_is_drawn_with_turns() {
    let body = vec![
        Segment { x: 3, y: 5, dir: Direction::Right },
        Segment { x: 4, y: 5, dir: Direction::Right },
        Segment { x: 4, y: 4, dir: Direction::Up },
        Segment { x: 4, y: 3, dir: Direction::Up },
    ];
    let out = draw_snake(&body, 33);
    let expected = vec![
        glyph(3, 5, '━', 33),
        glyph(4, 5, '┛', 33),
        glyph(4, 4, '┃', 33),
        glyph(4, 3, '┃', 33),
    ];
    assert_eq!(out, expected);
    assert!(draw_snake(&Vec::new(), 33).is_empty());
}

#[test]
fn fruit_glyph() {
    assert_eq!(draw_fruit((3, 7), 34), glyph(3, 7, 'o', 34));
}

#[test]
fn occupied_cells_are_found() {
    let blacklist = [(1usize, 2usize, 0i32), (3, 4, 1)];
    assert!(is_occupied(&blacklist, 1, 2));
    assert!(is_occupied(&blacklist, 3, 4));
    assert!(!is_occupied(&blacklist, 2, 1));
    assert!(!is_occupied(&[], 0, 0));
}

#[test]
fn occupied_cells_are_counted_once() {
    let blacklist = [(1usize, 2usize, 0i32), (3, 4, 1), (1, 2, 3), (1, 3, 0), (3, 4, 2)];
    assert_eq!(count_occupied(&blacklist), 3);
    assert_eq!(count_occupied(&[]), 0);
}

#[test]
fn free_cells_come_row_by_row() {
    let blacklist = [(0usize, 0usize, 0i32), (2, 1, 0), (9, 9, 0)];
    assert_eq!(free_cells(&blacklist, 3, 2), vec![(1, 0), (2, 0), (0, 1), (1, 1)]);
    assert!(free_cells(&blacklist, 0, 5).is_empty());
}

#[test]
fn placement_avoids_the_blacklist() {
    let blacklist = [(0usize, 0usize, 0i32), (1, 0, 1), (2, 2, 2), (3, 1, 3)];
    for _ in 0..200 {
        let (x, y) = place_random(&blacklist, 6, 5).expect("the board has room");
        assert!(x < 6 && y < 5);
        assert!(!is_occupied(&blacklist, x, y));
    }
}

#[test]
fn placement_on_full_board_gives_none() {
    let mut blacklist = Vec::new();
    for y in 0..3usize {
        for x in 0..4usize {
            blacklist.push((x, y, 0i32));
        }
    }
    for _ in 0..20 {
        assert_eq!(place_random(&blacklist, 4, 3), None);
    }
    assert_eq!(place_random(&[], 0, 0), None);
    assert_eq!(place_random(&[], 0, 7), None);
}

#[test]
fn placement_on_crowded_board_finds_the_last_cell() {
    let mut blacklist = Vec::new();
    for y in 0..3usize {
        for x in 0..4usize {
            if (x, y) != (2, 1) {
                blacklist.push((x, y, 1i32));
            }
        }
    }
    for _ in 0..20 {
        assert_eq!(place_random(&blacklist, 4, 3), Some((2, 1)));
    }
}

#[test]
fn placement_reaches_more_than_one_cell() {
    let mut seen = Vec::new();
    for _ in 0..200 {
        let c = place_random(&[], 5, 5).expect("an empty board has room");
        if !seen.contains(&c) {
            seen.push(c);
        }
    }
    assert!(seen.len() > 1);
}

#[test]
fn color_99_shows_help() {
    assert_eq!(launch(&args(&["snake-rs", "--color", "99"])), Launch::Help);
}

#[test]
fn allowed_colors_play() {
    assert_eq!(launch(&args(&["snake-rs", "--color", "31"])), Launch::Play(31));
    assert_eq!(launch(&args(&["snake-rs", "--color", "32"])), Launch::Play(32));
    assert_eq!(launch(&args(&["snake-rs", "--color", "33"])), Launch::Play(33));
    assert_eq!(launch(&args(&["snake-rs", "--color", "34"])), Launch::Play(34));
    assert_eq!(launch(&args(&["snake-rs", "--color", "+34", "more"])), Launch::Play(34));
}

#[test]
fn unreadable_color_fails() {
    assert_eq!(launch(&args(&["snake-rs", "--color", "red"])), Launch::Fail);
    assert_eq!(launch(&args(&["snake-rs", "--color", ""])), Launch::Fail);
    assert_eq!(launch(&args(&["snake-rs", "--color", "99999999999"])), Launch::Fail);
}

#[test]
fn other_command_lines_show_help() {
    assert_eq!(launch(&args(&[])), Launch::Help);
    assert_eq!(launch(&args(&["snake-rs"])), Launch::Help);
    assert_eq!(launch(&args(&["snake-rs", "-h"])), Launch::Help);
    assert_eq!(launch(&args(&["snake-rs", "--color"])), Launch::Help);
    assert_eq!(launch(&args(&["snake-rs", "--help", "32"])), Launch::Help);
    assert_eq!(launch(&args(&["snake-rs", "--colour", "32"])), Launch::Help);
}

#[test]
fn select_color_by_code() {
    assert_eq!(select_color(None), Launch::Fail);
    assert_eq!(select_color(Some(30)), Launch::Help);
    assert_eq!(select_color(Some(35)), Launch::Help);
    assert_eq!(select_color(Some(33)), Launch::Play(33));
}

#[test]
fn accepted_draws_are_free_cells() {
    let blacklist = [(1usize, 2usize, 0i32), (3, 4, 1)];
    assert_eq!(accept_draw(&blacklist, 1, 2), None);
    assert_eq!(accept_draw(&blacklist, 2, 1), Some((2, 1)));
    assert_eq!(accept_draw(&[], 0, 0), Some((0, 0)));
}

#[test]
fn cells_are_picked_by_index() {
    let cells = vec![(1usize, 0usize), (2, 0), (0, 1)];
    assert_eq!(pick_cell(&cells, 0), Some((1, 0)));
    assert_eq!(pick_cell(&cells, 2), Some((0, 1)));
    assert_eq!(pick_cell(&cells, 3), None);
    assert_eq!(pick_cell(&Vec::new(), 0), None);
}

fn text(chars: Vec<char>) -> String {
    chars.into_iter().collect()
}

#[test]
fn cell_text_is_cursor_colour_glyph() {
    assert_eq!(text(draw_char(0, 0, 'o', 31)), "\x1b[1;1H\x1b[31mo");
    assert_eq!(text(draw_char(79, 23, '┃', 90)), "\x1b[24;80H\x1b[90m┃");
    assert_eq!(text(draw_char(9, 99, '+', 0)), "\x1b[100;10H\x1b[0m+");
    assert_eq!(text(draw_char(-1, -3, 'x', -7)), "\x1b[-2;0H\x1b[-7mx");
}

#[test]
fn decimal_text_matches_the_usual_one() {
    for n in [0, 1, 9, 10, 11, 99, 100, 101, 12345, -1, -10, -999, i32::MAX, i32::MIN] {
        let mut out = vec!['#'];
        push_decimal(&mut out, n);
        assert_eq!(text(out), format!("#{}", n));
    }
}

#[test]
fn placement_on_sparse_board_always_finds_a_cell() {
    let blacklist = [(6usize, 5usize, 1i32)];
    for _ in 0..200 {
        let (x, y) = place_random(&blacklist, 10, 10).expect("the board has room");
        assert!(x < 10 && y < 10);
        assert_ne!((x, y), (6, 5));
    }
}

#[test]
fn placement_finds_the_free_cell_when_draws_keep_missing() {
    let blacklist = [(0usize, 0usize, 0i32)];
    for _ in 0..200 {
        let cell = place_random(&blacklist, 3, 1).expect("two cells are free");
        assert!(cell == (1, 0) || cell == (2, 0));
    }
    let crowded = [(0usize, 0usize, 0i32), (0, 0, 1)];
    for _ in 0..50 {
        assert_eq!(place_random(&crowded, 2, 1), Some((1, 0)));
    }
}
