use zellij_copy_mode::dump::parse_dump;
use zellij_copy_mode::state::{Mode, State};

fn state(text: &str) -> State {
    let mut s = State::default();
    s.grid = parse_dump(text.as_bytes());
    s
}

fn select(s: &mut State, mode: Mode, anchor: (usize, usize), cursor: (usize, usize)) {
    s.mode = mode;
    s.anchor = Some(anchor);
    s.cur_row = cursor.0;
    s.cur_col = cursor.1;
}

#[test]
fn ends_are_in_reading_order() {
    let mut s = state("abc\ndef");
    assert_eq!(s.selection(), None);
    select(&mut s, Mode::Visual, (1, 0), (0, 2));
    assert_eq!(s.selection(), Some(((0, 2), (1, 0))));
    select(&mut s, Mode::Visual, (0, 2), (1, 0));
    assert_eq!(s.selection(), Some(((0, 2), (1, 0))));
    select(&mut s, Mode::Visual, (0, 2), (0, 1));
    assert_eq!(s.selection(), Some(((0, 1), (0, 2))));
}

#[test]
fn characters_between_the_ends() {
    let mut s = state("hello world\nsecond line\nthird");
    select(&mut s, Mode::Visual, (0, 6), (2, 1));
    assert_eq!(s.selected_text(), "world\nsecond line\nth");
    assert!(!s.is_selected(0, 5) && s.is_selected(0, 6) && s.is_selected(1, 0));
    assert!(s.is_selected(2, 1) && !s.is_selected(2, 2));
    select(&mut s, Mode::Visual, (1, 3), (1, 3));
    assert_eq!(s.selected_text(), "o");
}

#[test]
fn whole_lines() {
    let mut s = state("one  \ntwo\nthree");
    select(&mut s, Mode::VisualLine, (1, 2), (0, 4));
    assert_eq!(s.selected_text(), "one\ntwo");
    assert!(s.is_selected(0, 0) && s.is_selected(1, 99) && !s.is_selected(2, 0));
}

#[test]
fn without_a_visual_mode_nothing_is_highlighted_but_lines_are_copied() {
    let mut s = state("one\ntwo");
    select(&mut s, Mode::Normal, (0, 1), (1, 1));
    assert!(!s.is_selected(0, 1));
    assert_eq!(s.selected_text(), "one\ntwo");
    s.anchor = None;
    assert_eq!(s.selected_text(), "");
}

#[test]
fn rows_that_the_grid_lost_add_nothing() {
    let mut s = state("one\ntwo");
    select(&mut s, Mode::VisualLine, (0, 0), (5, 0));
    assert_eq!(s.selected_text(), "one\ntwo\n");
    select(&mut s, Mode::VisualLine, (4, 0), (5, 0));
    assert_eq!(s.selected_text(), "");
}

#[test]
fn a_start_behind_the_end_of_its_row_copies_nothing_of_it() {
    let mut s = state("ab\ncd");
    select(&mut s, Mode::Visual, (0, 2), (1, 0));
    assert_eq!(s.selected_text(), "\nc");
    select(&mut s, Mode::Visual, (0, 3), (1, 0));
    assert_eq!(s.selected_text(), "\nc");
    select(&mut s, Mode::Visual, (0, 3), (0, 9));
    assert_eq!(s.selected_text(), "");
    select(&mut s, Mode::VisualLine, (0, 3), (1, 0));
    assert_eq!(s.selected_text(), "ab\ncd");
}

#[test]
fn what_is_highlighted_is_what_is_copied() {
    let mut s = state("abcd\nef\n\nghijk");
    for mode in [Mode::Visual, Mode::VisualLine] {
        for a in [(0, 1), (1, 0), (2, 0), (3, 4)] {
            for b in [(0, 3), (1, 1), (2, 0), (3, 2)] {
                select(&mut s, mode, a, b);
                let (start, end) = s.selection().unwrap();
                let mut lines = Vec::new();
                for row in start.0..=end.0 {
                    let mut line = String::new();
                    for (col, cell) in s.grid[row].iter().enumerate() {
                        if s.is_selected(row, col) {
                            line.push(cell.ch);
                        }
                    }
                    lines.push(line);
                }
                assert_eq!(s.selected_text(), lines.join("\n"));
            }
        }
    }
}
