use zellij_copy_mode::style::{styled, Color, Style};

fn plain() -> Style {
    Style::default()
}

fn codes_of(sequence: &str) -> Vec<u16> {
    let inner = &sequence[2..sequence.len() - 1];
    inner.split(';').map(|c| c.parse().unwrap()).collect()
}

#[test]
fn plain_style_is_the_default() {
    let s = plain();
    assert_eq!(s.fg, Color::Default);
    assert_eq!(s.bg, Color::default());
    assert!(!s.bold && !s.italic && !s.underline && !s.reverse);
}

#[test]
fn sgr_lists_what_is_on() {
    assert_eq!(plain().sgr(), "\x1b[0m");
    let s = Style {
        fg: Color::Indexed(200),
        bg: Color::Rgb(1, 20, 255),
        bold: true,
        italic: true,
        underline: true,
        reverse: true,
    };
    assert_eq!(s.sgr(), "\x1b[0;1;3;4;7;38;5;200;48;2;1;20;255m");
    let t = Style { bg: Color::Indexed(0), underline: true, ..plain() };
    assert_eq!(t.sgr(), "\x1b[0;4;48;5;0m");
}

#[test]
fn sgr_establishes_the_style_from_any_other() {
    let colors = [Color::Default, Color::Indexed(7), Color::Rgb(0, 128, 255)];
    let mut styles = Vec::new();
    for fg in colors {
        for bg in colors {
            for bits in 0..16 {
                styles.push(Style {
                    fg,
                    bg,
                    bold: bits & 1 != 0,
                    italic: bits & 2 != 0,
                    underline: bits & 4 != 0,
                    reverse: bits & 8 != 0,
                });
            }
        }
    }
    for before in &styles {
        for style in &styles {
            assert_eq!(styled(*before, &codes_of(&style.sgr())), *style);
        }
    }
}

#[test]
fn attributes_go_on_and_off() {
    let on = styled(plain(), &vec![1, 3, 4, 7]);
    assert_eq!(on, Style { bold: true, italic: true, underline: true, reverse: true, ..plain() });
    assert_eq!(styled(on, &vec![22]), Style { bold: false, ..on });
    assert_eq!(styled(on, &vec![23]), Style { italic: false, ..on });
    assert_eq!(styled(on, &vec![24]), Style { underline: false, ..on });
    assert_eq!(styled(on, &vec![27]), Style { reverse: false, ..on });
    assert_eq!(styled(on, &vec![0]), plain());
    assert_eq!(styled(on, &vec![]), plain());
    assert_eq!(styled(on, &vec![2, 5, 99, 108, 1000]), on);
}

#[test]
fn named_colors() {
    assert_eq!(styled(plain(), &vec![30]).fg, Color::Indexed(0));
    assert_eq!(styled(plain(), &vec![37]).fg, Color::Indexed(7));
    assert_eq!(styled(plain(), &vec![90]).fg, Color::Indexed(8));
    assert_eq!(styled(plain(), &vec![97]).fg, Color::Indexed(15));
    assert_eq!(styled(plain(), &vec![40]).bg, Color::Indexed(0));
    assert_eq!(styled(plain(), &vec![47]).bg, Color::Indexed(7));
    assert_eq!(styled(plain(), &vec![100]).bg, Color::Indexed(8));
    assert_eq!(styled(plain(), &vec![107]).bg, Color::Indexed(15));
    assert_eq!(styled(plain(), &vec![31, 39]).fg, Color::Default);
    assert_eq!(styled(plain(), &vec![41, 49]).bg, Color::Default);
}

#[test]
fn extended_colors() {
    assert_eq!(styled(plain(), &vec![38, 5, 300]).fg, Color::Indexed(44));
    assert_eq!(styled(plain(), &vec![48, 2, 1, 2, 259]).bg, Color::Rgb(1, 2, 3));
    assert_eq!(styled(plain(), &vec![38, 5]).fg, Color::Indexed(0));
    assert_eq!(styled(plain(), &vec![48, 2, 9]).bg, Color::Rgb(9, 0, 0));
    // A lead without a known kind resets the color, and what follows counts by itself.
    let red = Style { fg: Color::Indexed(1), ..plain() };
    assert_eq!(styled(red, &vec![38, 1]), Style { bold: true, ..plain() });
    assert_eq!(styled(red, &vec![38]), plain());
    // What follows a color counts again.
    assert_eq!(
        styled(plain(), &vec![38, 5, 1, 7]),
        Style { fg: Color::Indexed(1), reverse: true, ..plain() }
    );
}

#[test]
fn portions_apply_in_turn() {
    let first = vec![1, 31, 4, 99];
    for rest in [vec![22], vec![38, 5, 9], vec![48, 2, 1, 2, 3, 7], vec![0]] {
        let all: Vec<u16> = first.iter().chain(rest.iter()).copied().collect();
        assert_eq!(styled(plain(), &all), styled(styled(plain(), &first), &rest));
    }
}
