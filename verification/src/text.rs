//! Characters and strings: decimal numbers, trailing blanks, lines.
use vstd::prelude::*;
use vstd::utf8::is_ascii_chars;

verus! {

/// Whether the character has the Unicode property `White_Space`.
pub open spec fn whitespace(c: char) -> bool {
    let n = c as u32;
    ||| 0x09 <= n <= 0x0d
    ||| n == 0x20
    ||| n == 0x85
    ||| n == 0xa0
    ||| n == 0x1680
    ||| 0x2000 <= n <= 0x200a
    ||| n == 0x2028
    ||| n == 0x2029
    ||| n == 0x202f
    ||| n == 0x205f
    ||| n == 0x3000
}

/// `char::is_whitespace` says whether the character has the property `White_Space`.
pub assume_specification[ char::is_whitespace ](c: char) -> (r: bool)
    ensures
        r == whitespace(c),
;

/// The lower case of an ASCII character.
pub open spec fn ascii_lower_char(c: char) -> char {
    if 'A' <= c <= 'Z' {
        ((c as u8) + 32) as char
    } else {
        c
    }
}

/// The lower case of an ASCII text, letter by letter.
pub open spec fn ascii_lower(s: Seq<char>) -> Seq<char> {
    s.map_values(|c: char| ascii_lower_char(c))
}

/// What `str::to_lowercase` makes of a text that is not ASCII.
pub uninterp spec fn unicode_lower(s: Seq<char>) -> Seq<char>;

/// The lower case of a text.
pub open spec fn lower(s: Seq<char>) -> Seq<char> {
    if is_ascii_chars(s) {
        ascii_lower(s)
    } else {
        unicode_lower(s)
    }
}

/// `str::to_lowercase` answers by the characters alone. An ASCII text it maps letter by
/// letter; of any other text it is stated only that no character is lost, since each
/// becomes one character or more.
pub assume_specification[ str::to_lowercase ](s: &str) -> (r: String)
    ensures
        is_ascii_chars(s@) ==> r@ == ascii_lower(s@),
        !is_ascii_chars(s@) ==> r@ == unicode_lower(s@),
        r@.len() >= s@.len(),
;

/// `String::push` appends the character.
pub assume_specification[ String::push ](s: &mut String, c: char)
    ensures
        final(s)@ == old(s)@.push(c),
;

/// `String::pop` removes the last character and hands it out, if there is one.
pub assume_specification[ String::pop ](s: &mut String) -> (r: Option<char>)
    ensures
        old(s)@.len() == 0 ==> r is None && final(s)@ == old(s)@,
        old(s)@.len() > 0 ==> r == Some(old(s)@.last()) && final(s)@ == old(s)@.drop_last(),
;

/// The decimal digit of a number below ten.
pub open spec fn digit(n: nat) -> char
    recommends
        n < 10,
{
    (('0' as nat) + n) as char
}

/// The decimal numeral of `n`, without leading zeros.
pub open spec fn decimal(n: nat) -> Seq<char>
    decreases n,
{
    if n < 10 {
        seq![digit(n)]
    } else {
        decimal(n / 10).push(digit(n % 10))
    }
}

/// The number that a row of decimal digits stands for.
pub open spec fn numeral_value(digits: Seq<char>) -> int
    decreases digits.len(),
{
    if digits.len() == 0 {
        0
    } else {
        10 * numeral_value(digits.drop_last()) + (digits.last() as int - '0' as int)
    }
}

/// A decimal numeral is made of digits, stands for its number, and has no leading zero
/// but that of zero itself.
pub proof fn numerals_stand_for_their_numbers(n: nat)
    ensures
        numeral_value(decimal(n)) == n,
        decimal(n).len() > 0,
        forall|i: int| 0 <= i < decimal(n).len() ==> '0' <= #[trigger] decimal(n)[i] <= '9',
        n > 0 ==> decimal(n)[0] != '0',
        n == 0 ==> decimal(n) == seq!['0'],
    decreases n,
{
    let d = decimal(n);
    if n < 10 {
        assert(d.drop_last() =~= seq![]);
        assert(numeral_value(d.drop_last()) == 0);
    } else {
        numerals_stand_for_their_numbers(n / 10);
        assert(d.drop_last() =~= decimal(n / 10));
        assert(d.last() == digit(n % 10));
        assert(d[0] == decimal(n / 10)[0]);
    }
}

/// Appends the decimal numeral of `n`.
pub fn push_decimal(out: &mut String, n: u128)
    ensures
        final(out)@ == old(out)@ + decimal(n as nat),
    decreases n,
{
    let d: u8 = (n % 10) as u8;
    if n >= 10 {
        push_decimal(out, n / 10);
    }
    out.push((48u8 + d) as char);
    assert(out@ =~= old(out)@ + decimal(n as nat));
}

/// `s` without the white space at its end.
pub open spec fn trim_end(s: Seq<char>) -> Seq<char>
    decreases s.len(),
{
    if s.len() > 0 && whitespace(s.last()) {
        trim_end(s.drop_last())
    } else {
        s
    }
}

/// The lines of `s`: what lies before, between and after its newlines.
pub open spec fn lines_of(s: Seq<char>) -> Seq<Seq<char>>
    decreases s.len(),
{
    if s.len() == 0 {
        seq![seq![]]
    } else {
        let before = lines_of(s.drop_last());
        if s.last() == '\n' {
            before.push(seq![])
        } else {
            before.drop_last().push(before.last().push(s.last()))
        }
    }
}

/// The given lines, with a newline between each two neighbours.
pub open spec fn join_lines(lines: Seq<Seq<char>>) -> Seq<char>
    decreases lines.len(),
{
    if lines.len() == 0 {
        seq![]
    } else if lines.len() == 1 {
        lines[0]
    } else {
        join_lines(lines.drop_last()).push('\n') + lines.last()
    }
}

/// Each of the given lines without the white space at its end.
pub open spec fn trim_each(lines: Seq<Seq<char>>) -> Seq<Seq<char>> {
    lines.map_values(|l: Seq<char>| trim_end(l))
}

/// What `join_lines` puts before the last of the lines.
spec fn join_prefix(lines: Seq<Seq<char>>) -> Seq<char> {
    if lines.len() <= 1 {
        seq![]
    } else {
        join_lines(lines.drop_last()).push('\n')
    }
}

/// Every text has at least one line.
pub proof fn lines_nonempty(s: Seq<char>)
    ensures
        lines_of(s).len() > 0,
    decreases s.len(),
{
    if s.len() > 0 {
        lines_nonempty(s.drop_last());
    }
}

/// No line holds a newline.
pub proof fn lines_hold_no_newline(s: Seq<char>)
    ensures
        forall|i: int| 0 <= i < lines_of(s).len() ==> !(#[trigger] lines_of(s)[i]).contains('\n'),
    decreases s.len(),
{
    if s.len() > 0 {
        let before = lines_of(s.drop_last());
        lines_hold_no_newline(s.drop_last());
        lines_nonempty(s.drop_last());
        assert(!before.last().contains('\n')) by {
            assert(before.last() == before[before.len() - 1]);
        }
        assert forall|i: int| 0 <= i < lines_of(s).len() implies !(
        #[trigger] lines_of(s)[i]).contains('\n') by {
            if i == lines_of(s).len() - 1 {
                if s.last() != '\n' {
                    let l = before.last().push(s.last());
                    assert(lines_of(s)[i] == l);
                    assert forall|k: int| 0 <= k < l.len() implies l[k] != '\n' by {
                        if k < before.last().len() {
                            assert(before.last().contains(before.last()[k]));
                        }
                    }
                }
            } else {
                assert(lines_of(s)[i] == before[i]);
            }
        }
    }
}

/// Joining the lines of a text gives the text back.
pub proof fn join_undoes_lines(s: Seq<char>)
    ensures
        join_lines(lines_of(s)) == s,
    decreases s.len(),
{
    if s.len() > 0 {
        let before = lines_of(s.drop_last());
        join_undoes_lines(s.drop_last());
        lines_nonempty(s.drop_last());
        if s.last() == '\n' {
            assert(before.push(seq![]).drop_last() =~= before);
            assert(join_lines(lines_of(s)) =~= s);
        } else {
            let l = before.last().push(s.last());
            assert(before.drop_last().push(l).drop_last() =~= before.drop_last());
            join_prefix_step(before);
            join_prefix_step(lines_of(s));
            assert(join_lines(lines_of(s)) =~= s.drop_last().push(s.last()));
            assert(s.drop_last().push(s.last()) =~= s);
        }
    }
}

/// Splitting joined lines gives the lines back, where none of them holds a newline.
pub proof fn lines_undo_join(lines: Seq<Seq<char>>)
    requires
        lines.len() > 0,
        forall|i: int| 0 <= i < lines.len() ==> !(#[trigger] lines[i]).contains('\n'),
    ensures
        lines_of(join_lines(lines)) == lines,
    decreases lines.len(), lines.last().len(),
{
    let s = join_lines(lines);
    let last = lines.last();
    let front = lines.drop_last();
    join_prefix_step(lines);
    assert(front.push(last) =~= lines);
    if last.len() > 0 {
        let c = last.last();
        let shorter = front.push(last.drop_last());
        assert(last.contains(last[last.len() - 1]));
        assert(shorter.drop_last() =~= front);
        assert forall|i: int| 0 <= i < shorter.len() implies !(#[trigger] shorter[i]).contains(
            '\n',
        ) by {
            if i < front.len() {
                assert(shorter[i] == lines[i]);
            } else {
                assert(!lines[lines.len() - 1].contains('\n'));
                assert forall|k: int| 0 <= k < shorter[i].len() implies shorter[i][k] != '\n' by {
                    assert(last.contains(last[k]));
                }
            }
        }
        lines_undo_join(shorter);
        join_prefix_step(shorter);
        assert(s.drop_last() =~= join_lines(shorter));
        assert(s.last() == c);
        assert(last.drop_last().push(c) =~= last);
        assert(lines_of(s) =~= lines);
    } else if lines.len() == 1 {
        assert(s =~= seq![]);
        assert(lines =~= seq![seq![]]);
    } else {
        assert forall|i: int| 0 <= i < front.len() implies !(#[trigger] front[i]).contains(
            '\n',
        ) by {
            assert(front[i] == lines[i]);
        }
        lines_undo_join(front);
        assert(s =~= join_lines(front).push('\n'));
        assert(s.drop_last() =~= join_lines(front));
        assert(last =~= seq![]);
        assert(lines_of(s) =~= lines);
    }
}

/// `trim_end` takes white space from the end, all of it, and nothing else.
pub proof fn trim_end_is_longest_clean_prefix(s: Seq<char>)
    ensures
        trim_end(s).len() <= s.len(),
        trim_end(s) == s.take(trim_end(s).len() as int),
        trim_end(s).len() > 0 ==> !whitespace(trim_end(s).last()),
        forall|i: int| trim_end(s).len() <= i < s.len() ==> whitespace(#[trigger] s[i]),
    decreases s.len(),
{
    if s.len() > 0 && whitespace(s.last()) {
        trim_end_is_longest_clean_prefix(s.drop_last());
        assert(s.drop_last().take(trim_end(s).len() as int) =~= s.take(trim_end(s).len() as int));
        assert forall|i: int| trim_end(s).len() <= i < s.len() implies whitespace(
            #[trigger] s[i],
        ) by {
            if i < s.len() - 1 {
                assert(s.drop_last()[i] == s[i]);
            }
        }
    } else {
        assert(s.take(s.len() as int) =~= s);
    }
}

/// Appends the characters of `line` without the white space at its end.
fn push_trimmed(out: &mut String, line: &Vec<char>)
    ensures
        final(out)@ == old(out)@ + trim_end(line@),
{
    let mut keep: usize = line.len();
    assert(line@.take(keep as int) =~= line@);
    while keep > 0 && line[keep - 1].is_whitespace()
        invariant
            keep <= line.len(),
            trim_end(line@.take(keep as int)) == trim_end(line@),
        decreases keep,
    {
        assert(line@.take(keep as int).drop_last() =~= line@.take(keep - 1));
        keep = keep - 1;
    }
    assert(trim_end(line@) == line@.take(keep as int));
    let mut i: usize = 0;
    assert(out@ + line@.take(0) =~= out@);
    while i < keep
        invariant
            i <= keep <= line.len(),
            out@ == old(out)@ + line@.take(i as int),
        decreases keep - i,
    {
        out.push(line[i]);
        i = i + 1;
        assert(out@ =~= old(out)@ + line@.take(i as int));
    }
}

proof fn join_prefix_step(lines: Seq<Seq<char>>)
    requires
        lines.len() > 0,
    ensures
        join_lines(lines) == join_prefix(lines) + lines.last(),
{
    assert(join_lines(lines) =~= join_prefix(lines) + lines.last());
}

/// The text with the white space at the end of each of its lines taken away.
pub fn trim_lines(raw: &Vec<char>) -> (r: String)
    ensures
        r@ == join_lines(trim_each(lines_of(raw@))),
{
    let mut out = String::new();
    let mut cur: Vec<char> = Vec::new();
    let mut i: usize = 0;
    proof {
        assert(raw@.take(0) =~= seq![]);
        assert(trim_each(lines_of(raw@.take(0))).len() == 1);
        assert(out@ =~= join_prefix(trim_each(lines_of(raw@.take(0)))));
        assert(cur@ =~= lines_of(raw@.take(0)).last());
    }
    while i < raw.len()
        invariant
            i <= raw.len(),
            lines_of(raw@.take(i as int)).len() > 0,
            cur@ == lines_of(raw@.take(i as int)).last(),
            out@ == join_prefix(trim_each(lines_of(raw@.take(i as int)))),
        decreases raw.len() - i,
    {
        let c = raw[i];
        let ghost before = lines_of(raw@.take(i as int));
        let ghost after = lines_of(raw@.take(i + 1));
        assert(raw@.take(i + 1).drop_last() =~= raw@.take(i as int));
        proof {
            join_prefix_step(trim_each(before));
        }
        if c == '\n' {
            push_trimmed(&mut out, &cur);
            out.push('\n');
            cur = Vec::new();
            assert(after == before.push(seq![]));
            assert(trim_each(after).drop_last() =~= trim_each(before));
            assert(trim_each(before).last() == trim_end(before.last()));
            assert(out@ =~= join_prefix(trim_each(after)));
        } else {
            cur.push(c);
            assert(trim_each(after).drop_last() =~= trim_each(before).drop_last());
            assert(trim_each(after).len() == trim_each(before).len());
        }
        i = i + 1;
    }
    assert(raw@.take(raw.len() as int) =~= raw@);
    push_trimmed(&mut out, &cur);
    proof {
        join_prefix_step(trim_each(lines_of(raw@)));
    }
    out
}

} // verus!
