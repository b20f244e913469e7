use zellij_copy_mode::dump::parse_dump;
use zellij_copy_mode::state::{Mode, State};
use zellij_copy_mode::style::Style;

fn state(text: &str) -> State {
    let mut s = State::default();
    s.grid = parse_dump(text.as_bytes());
    s.loaded = true;
    s
}

const BAR: &str = "\x1b[1m\x1b[48;5;24m\x1b[38;5;231m";

#[test]
fn nothing_is_painted_before_there_is_something_to_show() {
    let mut s = state("abc");
    s.loaded = false;
    s.needs_initial_scroll = true;
    assert_eq!(s.render(10, 20), "");
    assert_eq!((s.rows, s.cols), (10, 20));
    assert!(s.needs_initial_scroll);
}

#[test]
fn rows_and_status_bar() {
    let mut s = state("abc\nde");
    let frame = s.render(4, 5);
    assert_eq!(
        frame,
        format!(
            "\x1b[0;7ma\x1b[0mbc\x1b[0m\r\n\x1b[0mde\x1b[0m\r\n\r\n{BAR} COPY\x1b[0m"
        )
    );
}

#[test]
fn status_bars_by_mode() {
    let mut s = state("a\nb");
    s.cur_row = 1;
    let hints = "j/k move · v select · y yank · / search · q quit";
    let text = format!(" COPY  2/2  {hints}");
    let width = text.chars().count();
    assert_eq!(s.status_bar(width), format!("{BAR}{text}\x1b[0m"));
    assert_eq!(s.status_bar(width + 3), format!("{BAR}{text}   \x1b[0m"));
    assert_eq!(s.status_bar(8), format!("{BAR} COPY  2\x1b[0m"));
    assert_eq!(s.status_bar(22), format!("{BAR} COPY  2/2  j/k move ·\x1b[0m"));
    assert_eq!(s.status_bar(0), format!("{BAR}\x1b[0m"));
    s.mode = Mode::Visual;
    let text = " VISUAL  2/2  move to extend · y yank · Esc cancel";
    assert_eq!(s.status_bar(text.chars().count()), format!("{BAR}{text}\x1b[0m"));
    s.mode = Mode::VisualLine;
    assert_eq!(s.status_bar(13), format!("{BAR} V-LINE  2/2 \x1b[0m"));
    s.mode = Mode::Search;
    s.search_input = String::from("qué");
    assert_eq!(s.status_bar(16), format!("{BAR} SEARCH  /qué   \x1b[0m"));
}

#[test]
fn a_sequence_comes_only_where_the_style_changes() {
    let mut s = state("\x1b[1mab\x1b[0mc");
    s.cur_row = 9;
    let frame = s.render(2, 80);
    assert!(frame.starts_with("\x1b[0;1mab\x1b[0mc\x1b[0m\r\n\x1b[1m"));
}

#[test]
fn the_selection_is_reversed_and_the_cursor_with_it() {
    let mut s = state("abcd");
    s.mode = Mode::Visual;
    s.anchor = Some((0, 1));
    s.cur_col = 2;
    let frame = s.render(2, 80);
    assert!(frame.starts_with("\x1b[0ma\x1b[0;7mbc\x1b[0md\x1b[0m\r\n"));
    let mut t = state("\x1b[7mab");
    let frame = t.render(2, 80);
    assert!(frame.starts_with("\x1b[0ma\x1b[0;7mb\x1b[0m\r\n"));
}

#[test]
fn rows_are_cut_at_the_width() {
    let mut s = state("abcdef");
    s.cur_row = 1;
    assert!(s.render(2, 3).starts_with("\x1b[0mabc\x1b[0m\r\n\x1b[1m"));
    assert!(s.render(2, 0).starts_with("\x1b[0m\r\n\x1b[1m"));
}

#[test]
fn the_first_paint_shows_the_bottom() {
    let text = (0..20).map(|i| i.to_string()).collect::<Vec<_>>().join("\n");
    let mut s = state(&text);
    s.needs_initial_scroll = true;
    s.cur_row = 19;
    s.render(6, 10);
    assert_eq!(s.scroll, 15);
    assert!(!s.needs_initial_scroll);
    s.needs_initial_scroll = true;
    s.cur_row = 3;
    s.render(6, 10);
    assert_eq!(s.scroll, 3);
    s.scroll = 7;
    s.render(8, 10);
    assert_eq!((s.scroll, s.rows), (7, 8));
}

#[test]
fn the_status_bar_sits_at_the_bottom() {
    let mut s = state("a\nb\nc");
    for rows in 0..7 {
        for scroll in 0..4 {
            s.scroll = scroll;
            let frame = s.render(rows, 10);
            let expected = if rows > 2 { rows - 1 } else { 1 };
            assert_eq!(frame.matches("\r\n").count(), expected);
        }
    }
    // So it does where the view starts below the grid.
    s.scroll = 5;
    assert_eq!(s.render(4, 10).matches("\r\n").count(), 3);
    s.scroll = usize::MAX;
    assert_eq!(s.render(4, 10).matches("\r\n").count(), 3);
}

#[test]
fn painted_rows_read_back() {
    let mut s = state("\x1b[1;31mre\x1b[44md\x1b[0m plain \x1b[38;2;1;2;3mé\x1b[7mx");
    s.cur_row = 4;
    let frame = s.render(2, 80);
    let row = &frame[..frame.find('\n').unwrap() + 1];
    assert_eq!(parse_dump(row.as_bytes()), s.grid);
    s.cur_row = 0;
    s.cur_col = 1;
    let frame = s.render(2, 80);
    let row = &frame[..frame.find('\n').unwrap() + 1];
    let back = parse_dump(row.as_bytes());
    let style = s.grid[0][1].style;
    assert_eq!(back[0][1].style, Style { reverse: !style.reverse, ..style });
    assert_eq!(back[0][2..], s.grid[0][2..]);
}
