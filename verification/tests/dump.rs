use zellij_copy_mode::dump::{parse_dump, Cell, GridBuilder, Line};
use zellij_copy_mode::style::{Color, Style};
use zellij_copy_mode::vt::Action;

fn text(lines: &[Line]) -> Vec<String> {
    lines.iter().map(|l| l.iter().map(|c| c.ch).collect()).collect()
}

#[test]
fn plain_text_gives_plain_lines() {
    let grid = parse_dump("one\ntwo\n\nfour".as_bytes());
    assert_eq!(text(&grid), ["one", "two", "", "four"]);
    assert!(grid.iter().flatten().all(|c| c.style == Style::default()));
}

#[test]
fn an_empty_last_line_is_no_row() {
    assert_eq!(text(&parse_dump(b"a\n")), ["a"]);
    assert_eq!(text(&parse_dump(b"a\n\n")), ["a", ""]);
    assert_eq!(text(&parse_dump(b"\n")), [""]);
    assert!(parse_dump(b"").is_empty());
}

#[test]
fn every_character_but_controls_is_printed() {
    for code in (0..0x3000).chain(0xff00..0x10100).chain(0x1f600..0x1f650) {
        let c = match char::from_u32(code) {
            Some(c) if c != '\x1b' && c != '\n' => c,
            _ => continue,
        };
        let grid = parse_dump(format!("<{c}>\nx").as_bytes());
        let expected = if code < 32 { String::from("<>") } else { format!("<{c}>") };
        assert_eq!(text(&grid), [expected, String::from("x")], "U+{code:04X}");
    }
}

#[test]
fn control_characters_leave_no_trace() {
    assert_eq!(text(&parse_dump(b"a\r\tb\x08c\x07\x00d\r\ne")), ["abcd", "e"]);
}

#[test]
fn sgr_sequences_style_what_follows() {
    let grid = parse_dump("a\x1b[1;38;5;200mb\nc\x1b[mé".as_bytes());
    let bold = Style { fg: Color::Indexed(200), bold: true, ..Style::default() };
    assert_eq!(
        grid[0],
        [Cell { ch: 'a', style: Style::default() }, Cell { ch: 'b', style: bold }]
    );
    assert_eq!(
        grid[1],
        [Cell { ch: 'c', style: bold }, Cell { ch: 'é', style: Style::default() }]
    );
}

#[test]
fn colons_separate_like_semicolons() {
    let rgb = Style { fg: Color::Rgb(10, 20, 30), ..Style::default() };
    assert_eq!(parse_dump(b"\x1b[38:2:10:20:30mx")[0][0].style, rgb);
    assert_eq!(parse_dump(b"\x1b[38;2;10;20;30mx")[0][0].style, rgb);
}

#[test]
fn subparameters_count_like_parameters() {
    let style = Style { fg: Color::Indexed(9), bold: true, ..Style::default() };
    assert_eq!(parse_dump(b"\x1b[38:5:9;1mx")[0][0].style, style);
    assert_eq!(parse_dump(b"\x1b[1;38:5:9mx")[0][0].style, style);
    let curly = Style { underline: true, italic: true, ..Style::default() };
    assert_eq!(parse_dump(b"\x1b[4:3mx")[0][0].style, curly);
    let many = format!("\x1b[{};4mx", vec!["0"; 31].join(":"));
    assert!(parse_dump(many.as_bytes())[0][0].style.underline);
}

/// A stream of pseudo-random pieces, and the grid that its pieces build one by one.
fn random_stream(seed: u64) -> (String, Vec<Line>) {
    let mut x = seed;
    let mut next = |n: u64| {
        x = x.wrapping_mul(6364136223846793005).wrapping_add(1442695040888963407);
        (x >> 33) % n
    };
    let chars = ['a', ' ', '~', '\x7f', '\u{80}', '\u{9b}', 'ß', '界', '🙂', '\n', '\r', '\t', '\x18',
        '\x1a', '[', 'm', ';', ':', '0'];
    let mut text = String::new();
    let mut builder = GridBuilder::default();
    for _ in 0..200 {
        if next(4) > 0 {
            let c = chars[next(chars.len() as u64) as usize];
            text.push(c);
            if (c as u32) < 32 {
                builder.execute(c as u8);
            } else {
                builder.print(c);
            }
        } else {
            let mut groups: Vec<Vec<u16>> = Vec::new();
            let last = b"mmmmHJK@~[A"[next(11) as usize] as char;
            let mut left = next(33);
            while left > 0 {
                let n = 1 + next(left.min(5));
                left -= n;
                groups.push((0..n).map(|_| next(if n == 3 { 65536 } else { 110 }) as u16).collect());
            }
            let list: Vec<String> = groups
                .iter()
                .map(|g| g.iter().map(|v| v.to_string()).collect::<Vec<_>>().join(":"))
                .collect();
            text.push_str(&format!("\x1b[{}{last}", list.join(";")));
            if groups.is_empty() {
                groups.push(vec![0]);
            }
            builder.csi_dispatch(&groups, last);
        }
    }
    (text, builder.finish())
}

#[test]
fn streams_are_read_piece_by_piece() {
    for seed in 0..300 {
        let (text, grid) = random_stream(seed);
        assert!(parse_dump(text.as_bytes()) == grid, "{text:?}");
    }
}

#[test]
fn long_parameter_lists_are_read_up_to_thirty_two() {
    let mut list = vec!["0"; 31];
    list.push("4");
    let grid = parse_dump(format!("\x1b[{}mx", list.join(";")).as_bytes());
    assert!(grid[0][0].style.underline);
    let big = parse_dump(b"\x1b[65535;1mx");
    assert!(big[0][0].style.bold);
}

#[test]
fn other_sequences_are_ignored() {
    let grid = parse_dump(b"a\x1b[2Jb\x1b[10;20Hc\x1b]0;title\x07d\x1b(Be");
    assert_eq!(text(&grid), ["abcde"]);
    assert!(grid[0].iter().all(|c| c.style == Style::default()));
}

#[test]
fn a_bare_sequence_resets() {
    let grid = parse_dump(b"\x1b[1;31ma\x1b[mb\x1b[1mc\x1b[0md\x1b[1me\x1b[Hf");
    let bold: Vec<bool> = grid[0].iter().map(|c| c.style.bold).collect();
    assert_eq!(bold, [true, false, true, false, true, true]);
    assert_eq!(grid[0][1].style, Style::default());
}

#[test]
fn broken_utf8_is_replaced() {
    assert_eq!(text(&parse_dump(b"a\xc3(b")), ["a\u{fffd}b"]);
}

#[test]
fn a_builder_takes_actions_one_by_one() {
    let mut builder = GridBuilder::default();
    builder.print('x');
    builder.execute(13);
    builder.csi_dispatch(&vec![vec![7]], 'H');
    builder.csi_dispatch(&vec![vec![7], vec![38, 5, 9]], 'm');
    builder.execute(10);
    builder.perform_all(&vec![Action::Print('y'), Action::Execute(10), Action::Csi(vec![], 'm')]);
    builder.print('z');
    assert_eq!(builder.style, Style::default());
    builder.apply_sgr(&vec![vec![1]]);
    assert!(builder.style.bold);
    let grid = builder.finish();
    let styled = Style { fg: Color::Indexed(9), reverse: true, ..Style::default() };
    assert_eq!(grid[0], [Cell { ch: 'x', style: Style::default() }]);
    assert_eq!(grid[1], [Cell { ch: 'y', style: styled }]);
    assert_eq!(grid[2], [Cell { ch: 'z', style: Style::default() }]);
    assert_eq!(grid.len(), 3);
    assert_eq!(Cell::default(), Cell { ch: ' ', style: Style::default() });
}
