use zellij_copy_mode::command::Command;
use zellij_copy_mode::dump::parse_dump;
use zellij_copy_mode::keys::{BareKey, KeyReply, KeyWithModifier};
use zellij_copy_mode::state::{Mode, State};

fn state(text: &str) -> State {
    let mut s = State::default();
    s.grid = parse_dump(text.as_bytes());
    s.loaded = true;
    s.rows = 6;
    s.cols = 20;
    s
}

fn press(s: &mut State, bare_key: BareKey, ctrl: bool) -> KeyReply {
    let key = KeyWithModifier { bare_key, ctrl };
    s.handle_key(key)
}

fn keys(s: &mut State, chars: &str) {
    for c in chars.chars() {
        let reply = press(s, BareKey::Char(c), false);
        assert!(reply.handled);
        assert!(reply.commands.is_empty());
    }
}

fn at(s: &State) -> (usize, usize) {
    (s.cur_row, s.cur_col)
}

#[test]
fn plain_motions() {
    let mut s = state("abc\nde\n\nfghi");
    keys(&mut s, "ll");
    assert_eq!(at(&s), (0, 2));
    keys(&mut s, "l");
    assert_eq!(at(&s), (0, 2));
    keys(&mut s, "j");
    assert_eq!(at(&s), (1, 1));
    keys(&mut s, "j");
    assert_eq!(at(&s), (2, 0));
    keys(&mut s, "G$");
    assert_eq!(at(&s), (3, 3));
    keys(&mut s, "j");
    assert_eq!(at(&s), (3, 3));
    keys(&mut s, "0");
    assert_eq!(at(&s), (3, 0));
    keys(&mut s, "h");
    assert_eq!(at(&s), (3, 0));
    keys(&mut s, "gk");
    assert_eq!(at(&s), (0, 0));
}

#[test]
fn arrows_move_too() {
    let mut s = state("abc\ndef");
    assert!(press(&mut s, BareKey::Right, false).handled);
    assert!(press(&mut s, BareKey::Down, false).handled);
    assert_eq!(at(&s), (1, 1));
    assert!(press(&mut s, BareKey::Left, false).handled);
    assert!(press(&mut s, BareKey::Up, false).handled);
    assert_eq!(at(&s), (0, 0));
}

#[test]
fn down_and_up_come_back() {
    let mut s = state("abc\nabc\nabc");
    keys(&mut s, "ljk");
    assert_eq!(at(&s), (0, 1));
}

#[test]
fn pages_follow_the_size_of_the_pane() {
    let text = vec!["x"; 40].join("\n");
    let mut s = state(&text);
    press(&mut s, BareKey::Char('d'), true);
    assert_eq!((s.cur_row, s.scroll), (3, 0));
    press(&mut s, BareKey::Char('f'), true);
    assert_eq!((s.cur_row, s.scroll), (9, 5));
    press(&mut s, BareKey::Char('u'), true);
    assert_eq!((s.cur_row, s.scroll), (6, 5));
    press(&mut s, BareKey::Char('b'), true);
    assert_eq!((s.cur_row, s.scroll), (0, 0));
    keys(&mut s, "G");
    assert_eq!((s.cur_row, s.scroll), (39, 35));
    s.rows = 0;
    press(&mut s, BareKey::Char('u'), true);
    assert_eq!((s.cur_row, s.scroll), (38, 38));
    s.rows = usize::MAX;
    press(&mut s, BareKey::Char('f'), true);
    assert_eq!(s.cur_row, 39);
}

#[test]
fn keys_without_meaning_change_nothing() {
    let mut s = state("abc\ndef");
    s.cur_col = 2;
    for key in [BareKey::Other, BareKey::Backspace, BareKey::Char('z'), BareKey::Char('d'),
        BareKey::Char('u'), BareKey::Char('f')] {
        let reply = press(&mut s, key, false);
        assert!(!reply.handled);
        assert!(reply.commands.is_empty());
        assert_eq!(at(&s), (0, 2));
    }
}

#[test]
fn words_forward() {
    let mut s = state("foo  bar\nbaz ");
    keys(&mut s, "w");
    assert_eq!(at(&s), (0, 5));
    keys(&mut s, "w");
    assert_eq!(at(&s), (1, 0));
    keys(&mut s, "w");
    assert_eq!(at(&s), (1, 3));
    keys(&mut s, "w");
    assert_eq!(at(&s), (1, 3));
}

#[test]
fn words_split_at_any_white_space() {
    let mut s = state("a\u{3000}b c");
    keys(&mut s, "w");
    assert_eq!(at(&s), (0, 2));
    keys(&mut s, "w");
    assert_eq!(at(&s), (0, 4));
}

#[test]
fn words_back() {
    let mut s = state("foo  bar\nbaz");
    keys(&mut s, "$");
    assert_eq!(at(&s), (0, 7));
    keys(&mut s, "b");
    assert_eq!(at(&s), (0, 5));
    keys(&mut s, "b");
    assert_eq!(at(&s), (0, 0));
    keys(&mut s, "b");
    assert_eq!(at(&s), (0, 0));
    // Behind the end of the row there is no word to go back over.
    s.cur_col = 30;
    s.word_back();
    assert_eq!(at(&s), (0, 30));
    s.cur_row = 9;
    s.word_forward();
    assert_eq!(at(&s), (9, 30));
}

#[test]
fn visual_modes_toggle() {
    let mut s = state("abc\ndef");
    keys(&mut s, "lv");
    assert_eq!(s.mode, Mode::Visual);
    assert_eq!(s.anchor, Some((0, 1)));
    keys(&mut s, "j");
    keys(&mut s, "V");
    assert_eq!(s.mode, Mode::VisualLine);
    assert_eq!(s.anchor, Some((1, 1)));
    keys(&mut s, "V");
    assert_eq!(s.mode, Mode::Normal);
    assert_eq!(s.anchor, None);
    s.toggle_visual(Mode::Visual);
    s.toggle_visual(Mode::Visual);
    assert_eq!((s.mode, s.anchor), (Mode::Normal, None));
}

#[test]
fn escape_cancels_then_leaves() {
    let mut s = state("abc");
    keys(&mut s, "v");
    let reply = press(&mut s, BareKey::Esc, false);
    assert!(reply.handled && reply.commands.is_empty());
    assert_eq!((s.mode, s.anchor), (Mode::Normal, None));
    let reply = press(&mut s, BareKey::Esc, false);
    assert!(reply.handled);
    assert_eq!(reply.commands, [Command::ClearKeyIntercepts, Command::CloseSelf]);
    let reply = press(&mut s, BareKey::Char('q'), false);
    assert!(reply.handled);
    assert_eq!(reply.commands, [Command::ClearKeyIntercepts, Command::CloseSelf]);
}

#[test]
fn yank_copies_and_leaves() {
    let mut s = state("abc\ndef");
    let reply = press(&mut s, BareKey::Char('y'), false);
    assert!(reply.handled && reply.commands.is_empty());
    keys(&mut s, "lvj");
    for key in [BareKey::Char('y'), BareKey::Enter] {
        let reply = press(&mut s, key, false);
        assert!(reply.handled);
        assert_eq!(
            reply.commands,
            [
                Command::CopyToClipboard(String::from("bc\nde")),
                Command::ClearKeyIntercepts,
                Command::CloseSelf
            ]
        );
    }
    assert_eq!(s.mode, Mode::Visual);
    let mut blank = state("   ");
    keys(&mut blank, "V");
    let reply = press(&mut blank, BareKey::Enter, false);
    assert_eq!(reply.commands, [Command::ClearKeyIntercepts, Command::CloseSelf]);
}

#[test]
fn typing_a_query() {
    let mut s = state("abc\nxabc\nde");
    keys(&mut s, "/");
    assert_eq!((s.mode, s.status.as_str()), (Mode::Search, "/"));
    keys(&mut s, "bq");
    assert_eq!((s.search_input.as_str(), s.status.as_str()), ("bq", "/bq"));
    assert!(press(&mut s, BareKey::Backspace, false).handled);
    assert_eq!((s.search_input.as_str(), s.status.as_str()), ("b", "/b"));
    assert!(!press(&mut s, BareKey::Left, false).handled);
    assert!(press(&mut s, BareKey::Enter, false).handled);
    assert_eq!(s.mode, Mode::Normal);
    assert_eq!((s.search_input.as_str(), s.last_query.as_str()), ("", "b"));
    assert_eq!(at(&s), (1, 2));
    keys(&mut s, "/zz");
    assert!(press(&mut s, BareKey::Esc, false).handled);
    assert_eq!((s.mode, s.status.as_str()), (Mode::Normal, "COPY"));
    assert_eq!((s.search_input.as_str(), s.last_query.as_str()), ("", "b"));
    keys(&mut s, "/");
    assert!(press(&mut s, BareKey::Backspace, false).handled);
    assert_eq!(s.status, "/");
}

#[test]
fn keys_keep_the_cursor_on_a_visible_cell() {
    let mut s = state("abc def\n\n  x\nlonger line here\n.\nabc\n\nz");
    let presses = "jjlllwwbG$kkhVjvg0wwwjjjjjnNGbwl$kv";
    for (i, c) in presses.chars().chain("dfub".chars()).cycle().take(400).enumerate() {
        let bare_key = if i % 17 == 16 { BareKey::Down } else { BareKey::Char(c) };
        s.last_query = String::from("e");
        press(&mut s, bare_key, i % 5 == 0);
        assert!(s.cur_row < s.grid.len());
        assert!(s.cur_col < s.grid[s.cur_row].len().max(1));
        assert!(s.scroll <= s.cur_row && s.cur_row < s.scroll + 5);
        assert_eq!(s.grid.len(), 8);
    }
}

#[test]
fn a_query_matches_at_a_character_of_its_row() {
    // The lower case of the row is a byte longer than the row.
    let mut s = state("\u{130}x");
    keys(&mut s, "/x");
    assert!(press(&mut s, BareKey::Enter, false).handled);
    assert_eq!(at(&s), (0, 1));
    keys(&mut s, "n");
    assert_eq!(at(&s), (0, 1));
    // Here it is shorter.
    let mut t = state("\u{212a}x");
    keys(&mut t, "/x");
    assert!(press(&mut t, BareKey::Enter, false).handled);
    assert_eq!(at(&t), (0, 1));
}

#[test]
fn a_yank_behind_the_end_of_a_row_copies_nothing_of_it() {
    let mut s = state("ab\ncd");
    s.mode = Mode::Visual;
    s.anchor = Some((0, 5));
    s.cur_row = 1;
    let reply = press(&mut s, BareKey::Char('y'), false);
    assert_eq!(reply.commands[0], Command::CopyToClipboard(String::from("\nc")));
    s.cur_row = 0;
    s.cur_col = 7;
    assert_eq!(press(&mut s, BareKey::Char('y'), false).commands.len(), 2);
}

#[test]
fn motions_there_and_back() {
    let mut s = state("abc\ndef\nghi\njkl\nmno\npqr\nstu");
    s.cur_row = 3;
    s.cur_col = 1;
    let ctrl = |c: char| (BareKey::Char(c), true);
    let plain = |c: char| (BareKey::Char(c), false);
    for (there, back) in [
        (plain('j'), plain('k')),
        (plain('l'), plain('h')),
        (ctrl('d'), ctrl('u')),
        ((BareKey::Down, false), (BareKey::Up, false)),
        ((BareKey::Right, false), (BareKey::Left, false)),
        (plain('j'), (BareKey::Up, false)),
    ] {
        for (first, second) in [(there, back), (back, there)] {
            press(&mut s, first.0, first.1);
            assert_ne!(at(&s), (3, 1));
            press(&mut s, second.0, second.1);
            assert_eq!(at(&s), (3, 1));
        }
    }
}
