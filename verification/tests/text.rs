use zellij_copy_mode::text::{push_decimal, trim_lines};

fn decimal(n: u128) -> String {
    let mut out = String::from("<");
    push_decimal(&mut out, n);
    out
}

fn trimmed(text: &str) -> String {
    trim_lines(&text.chars().collect())
}

#[test]
fn decimals_have_no_leading_zeros() {
    assert_eq!(decimal(0), "<0");
    assert_eq!(decimal(9), "<9");
    assert_eq!(decimal(10), "<10");
    assert_eq!(decimal(255), "<255");
    assert_eq!(decimal(1_000_307), "<1000307");
    assert_eq!(decimal(u128::MAX), format!("<{}", u128::MAX));
}

#[test]
fn trailing_white_space_goes_line_by_line() {
    assert_eq!(trimmed("ab  \n c \t\n\n  \nd"), "ab\n c\n\n\nd");
    assert_eq!(trimmed(""), "");
    assert_eq!(trimmed("\n"), "\n");
    assert_eq!(trimmed("x\u{a0}\u{3000}\ny\u{2009}"), "x\ny");
    assert_eq!(trimmed("x\u{200b} "), "x\u{200b}");
}

#[test]
fn white_space_is_the_unicode_property() {
    for c in '\0'..=char::MAX {
        let n = c as u32;
        let white = matches!(n, 0x09..=0x0d | 0x20 | 0x85 | 0xa0 | 0x1680 | 0x2000..=0x200a)
            || matches!(n, 0x2028 | 0x2029 | 0x202f | 0x205f | 0x3000);
        let expected = if c == '\n' {
            String::from("x\n")
        } else if white {
            String::from("x")
        } else {
            format!("x{c}")
        };
        assert_eq!(trimmed(&format!("x{c}")), expected);
    }
}
