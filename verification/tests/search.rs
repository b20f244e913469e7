use zellij_copy_mode::dump::parse_dump;
use zellij_copy_mode::search::{column_at, find_text, line_text};
use zellij_copy_mode::state::State;

fn state(text: &str, query: &str) -> State {
    let mut s = State::default();
    s.grid = parse_dump(text.as_bytes());
    s.last_query = String::from(query);
    s.rows = 4;
    s
}

fn search(s: &mut State, forward: bool) -> (usize, usize) {
    s.run_search(forward);
    (s.cur_row, s.cur_col)
}

#[test]
fn first_offsets() {
    assert_eq!(find_text("abcabc", "ca"), Some(2));
    assert_eq!(find_text("aab", "ab"), Some(1));
    assert_eq!(find_text("äbc", "c"), Some(3));
    assert_eq!(find_text("abc", ""), Some(0));
    assert_eq!(find_text("", ""), Some(0));
    assert_eq!(find_text("abc", "abcd"), None);
    assert_eq!(find_text("abc", "d"), None);
}

#[test]
fn columns_count_characters() {
    let umlauts = &parse_dump("äöü".as_bytes())[0];
    assert_eq!(column_at(umlauts, 4), 2);
    assert_eq!(column_at(umlauts, 5), 2);
    assert_eq!(column_at(umlauts, 6), 3);
    assert_eq!(column_at(umlauts, 99), 3);
    assert_eq!(column_at(&Vec::new(), 0), 0);
    assert_eq!(line_text(&parse_dump("äb".as_bytes())[0]), "äb");
}

#[test]
fn search_goes_round_in_both_directions() {
    let mut s = state("foo\nbar\nxfoo\nbaz\nfoo", "foo");
    assert_eq!(search(&mut s, true), (2, 1));
    assert_eq!(search(&mut s, true), (4, 0));
    assert_eq!(search(&mut s, true), (0, 0));
    assert_eq!(search(&mut s, false), (4, 0));
    assert_eq!(search(&mut s, false), (2, 1));
    assert_eq!(search(&mut s, false), (0, 0));
}

#[test]
fn searching_back_returns() {
    let mut s = state("foo\nbar\nfoo\nbaz\nfoo", "foo");
    s.cur_row = 2;
    search(&mut s, true);
    assert_eq!(search(&mut s, false), (2, 0));
}

#[test]
fn the_own_row_comes_last() {
    let mut s = state("bar\nfoo foo\nbaz", "foo");
    s.cur_row = 1;
    s.cur_col = 2;
    assert_eq!(search(&mut s, true), (1, 0));
    s.cur_col = 2;
    assert_eq!(search(&mut s, false), (1, 0));
}

#[test]
fn case_does_not_matter() {
    for query in ["error", "ERROR", "eRRor"] {
        let mut s = state("ok\nan Error", query);
        assert_eq!(search(&mut s, true), (1, 3));
    }
    let mut s = state("ok\nÄÖÜ straße", "öü ST");
    assert_eq!(search(&mut s, true), (1, 1));
}

#[test]
fn a_match_is_scrolled_into_view() {
    let mut s = state(&["a", "a", "a", "a", "a", "b", "a"].join("\n"), "b");
    assert_eq!(search(&mut s, true), (5, 0));
    assert_eq!(s.scroll, 3);
}

#[test]
fn nothing_found_is_reported() {
    let mut s = state("foo\nbar", "qux");
    s.cur_row = 1;
    s.cur_col = 2;
    assert_eq!(search(&mut s, true), (1, 2));
    assert_eq!(s.status, "not found: qux");
}

#[test]
fn an_empty_query_or_grid_changes_nothing() {
    let mut s = state("foo", "");
    s.status = String::from("as before");
    assert_eq!(search(&mut s, true), (0, 0));
    assert_eq!(s.status, "as before");
    let mut t = state("", "foo");
    assert_eq!(search(&mut t, false), (0, 0));
    assert_eq!(t.status, "");
}

#[test]
fn columns_are_those_of_the_row_itself() {
    // The lower case of the dotted capital I takes a byte more.
    for (text, query, col) in [
        ("\u{130}x", "x", 1),
        ("\u{130}\u{e9}x", "\u{e9}x", 1),
        ("\u{130}\u{130}\u{130}x", "x", 3),
        ("a\u{130}b", "\u{130}", 1),
        // The lower case of the Kelvin sign is an ASCII letter.
        ("\u{212a}x", "x", 1),
        ("\u{212a}\u{e9}x", "\u{e9}", 1),
        ("0 \u{212a}", "k", 2),
        // A capital sigma at the end of a word has a lower case of its own.
        ("\u{3a3}\u{391}\u{3a3} x", "x", 4),
        ("\u{3a3}\u{391}\u{3a3} x", "\u{3c2} X", 2),
        // A match can begin within the lower case of a character.
        ("ab\u{130}", "\u{307}", 2),
    ] {
        let mut s = state(text, query);
        assert_eq!(search(&mut s, true), (0, col), "{text} {query}");
        assert_eq!(search(&mut s, false), (0, col), "{text} {query}");
        assert_eq!(s.status, "");
    }
}

#[test]
fn ascii_columns_are_offsets() {
    let text: String = (' '..='~').collect();
    let line = &parse_dump(text.as_bytes())[0];
    for offset in 0..=text.len() {
        assert_eq!(column_at(line, offset), offset);
    }
}

#[test]
fn lower_case_maps_ascii_letter_by_letter_and_loses_no_character() {
    for c in '\0'..=char::MAX {
        let text = format!("x{c}");
        let lowered = text.to_lowercase();
        if c.is_ascii() {
            assert_eq!(lowered, text.to_ascii_lowercase());
        }
        assert!(lowered.chars().count() >= 2);
    }
}

#[test]
fn every_match_is_at_a_character() {
    let rows = ["\u{130}", "\u{130}x\u{130}", "\u{212a}\u{212a}k", "ab", "\u{1f600}\u{130}y", "\u{1e9e}s"];
    let queries = ["x", "k", "\u{307}", "i", "\u{130}", "y", "b", "s", "\u{df}", "K"];
    for row in rows {
        for query in queries {
            let mut s = state(row, query);
            let (_, col) = search(&mut s, true);
            assert!(col < row.chars().count());
        }
    }
}

#[test]
fn a_cursor_below_the_grid_is_counted_round() {
    let mut s = state("foo\nbar\nfoo", "foo");
    s.cur_row = 4;
    assert_eq!(search(&mut s, true), (2, 0));
    s.cur_row = usize::MAX;
    assert_eq!(search(&mut s, true), (2, 0));
}
