//! Which row a search comes to, in which column, and how a query is typed.
use vstd::prelude::*;
use vstd::utf8::encode_utf8;

use crate::dump::Cell;
use crate::keys::BareKey;
use crate::motion_laws::{char_key, on_a_cell, other_key, view_follows};
use crate::search::{
    chars_before, chars_before_from, first_from_is_first, hit_is_nearest, match_at,
    matches_are_in_the_row, misses, occurs_at, search_hit, visited,
};
use crate::selection::row_text;
use crate::state::{Mode, StateView};
use crate::text::lower;

verus! {

/// A row has a match exactly where its lower-case text holds the lower-case query, and
/// the match is the first place at which it does.
pub proof fn matches_are_first_places(row: Seq<Cell>, query: Seq<char>)
    ensures
        ({
            let hay = encode_utf8(lower(row_text(row)));
            let needle = encode_utf8(lower(query));
            match match_at(row, query) {
                Some(i) => {
                    &&& 0 <= i <= hay.len() - needle.len()
                    &&& hay.subrange(i, i + needle.len()) == needle
                    &&& forall|j: int|
                        0 <= j < i ==> #[trigger] hay.subrange(j, j + needle.len()) != needle
                },
                None => forall|j: int|
                    0 <= j <= hay.len() - needle.len() ==> #[trigger] hay.subrange(
                        j,
                        j + needle.len(),
                    ) != needle,
            }
        }),
{
    let hay = encode_utf8(lower(row_text(row)));
    let needle = encode_utf8(lower(query));
    first_from_is_first(hay, needle, 0);
    assert forall|j: int|
        0 <= j <= hay.len() - needle.len() && #[trigger] hay.subrange(j, j + needle.len())
            == needle implies occurs_at(hay, needle, j) by {}
}

proof fn columns_end(text: Seq<char>, offset: int, k: int)
    requires
        0 <= k <= text.len(),
        forall|j: int|
            0 < j <= k ==> encode_utf8(lower(#[trigger] text.take(j))).len() <= offset,
    ensures
        ({
            let col = chars_before_from(text, offset, k);
            &&& k <= col <= text.len()
            &&& forall|j: int|
                0 < j <= col ==> encode_utf8(lower(#[trigger] text.take(j))).len() <= offset
            &&& col < text.len() ==> encode_utf8(lower(text.take(col + 1))).len() > offset
        }),
    decreases text.len() - k,
{
    if k < text.len() && encode_utf8(lower(text.take(k + 1))).len() <= offset {
        columns_end(text, offset, k + 1);
    }
}

/// The column of a place in the lower-case text is that of the first character whose
/// lower case ends behind it: all characters before end at it or before.
pub proof fn columns_are_those_of_characters(text: Seq<char>, offset: int)
    ensures
        ({
            let col = chars_before(text, offset);
            &&& 0 <= col <= text.len()
            &&& forall|j: int|
                0 < j <= col ==> encode_utf8(lower(#[trigger] text.take(j))).len() <= offset
            &&& col < text.len() ==> encode_utf8(lower(text.take(col + 1))).len() > offset
        }),
{
    columns_end(text, offset, 0);
}

/// Whether a row of the grid has a match of the last query.
pub open spec fn has_match(s: StateView, row: int) -> bool {
    0 <= row < s.grid.len() && match_at(s.grid[row], s.last_query) is Some
}

/// Whether the row is the nearest one below the cursor that has a match; where there is
/// none below, the first of the grid that has one.
pub open spec fn is_next_match(s: StateView, row: int) -> bool {
    &&& has_match(s, row)
    &&& forall|r: int| #[trigger]
        has_match(s, r) ==> if r > s.cur_row {
            s.cur_row < row <= r
        } else {
            row > s.cur_row || row <= r
        }
}

/// Whether the row is the nearest one above the cursor that has a match; where there is
/// none above, the last of the grid that has one.
pub open spec fn is_previous_match(s: StateView, row: int) -> bool {
    &&& has_match(s, row)
    &&& forall|r: int| #[trigger]
        has_match(s, r) ==> if r < s.cur_row {
            r <= row < s.cur_row
        } else {
            row < s.cur_row || r <= row
        }
}

/// Whether `t` is `s` after its search came to a match in its own row: the cursor on the
/// character at which the match begins, the view behind it, and nothing else changed.
pub open spec fn on_the_match(s: StateView, t: StateView) -> bool {
    &&& t.cur_col == chars_before(
        row_text(s.grid[t.cur_row]),
        match_at(s.grid[t.cur_row], s.last_query)->0,
    )
    &&& view_follows(s, t)
    &&& t == (StateView { cur_row: t.cur_row, cur_col: t.cur_col, scroll: t.scroll, ..s })
}

/// Whether `t` is `s` after its search found nothing: the status says so, and the cursor
/// stays.
pub open spec fn reports_nothing(s: StateView, t: StateView) -> bool {
    t == (StateView { status: "not found: "@ + s.last_query, scroll: t.scroll, ..s })
}

proof fn visited_is(n: int, from: int, forward: bool, j: int)
    requires
        0 <= from < n,
        0 <= j < n,
    ensures
        visited(n, from, forward, j) == if forward {
            if from + 1 + j < n {
                from + 1 + j
            } else {
                from + 1 + j - n
            }
        } else {
            if j < from {
                from - 1 - j
            } else {
                from + n - 1 - j
            }
        },
{
    if forward {
        if from + 1 + j < n {
            vstd::arithmetic::div_mod::lemma_small_mod((from + 1 + j) as nat, n as nat);
        } else {
            vstd::arithmetic::div_mod::lemma_small_mod((from + 1 + j - n) as nat, n as nat);
            vstd::arithmetic::div_mod::lemma_mod_add_multiples_vanish(from + 1 + j - n, n);
        }
    } else {
        if j < from {
            vstd::arithmetic::div_mod::lemma_small_mod((from - 1 - j) as nat, n as nat);
            vstd::arithmetic::div_mod::lemma_mod_add_multiples_vanish(from - 1 - j, n);
        } else {
            vstd::arithmetic::div_mod::lemma_small_mod((from + n - 1 - j) as nat, n as nat);
        }
    }
}

/// A search forward hits the next match and a search backward the previous one.
proof fn hits(s: StateView, forward: bool)
    requires
        0 <= s.cur_row < s.grid.len(),
    ensures
        match search_hit(s.grid, s.cur_row, s.last_query, forward) {
            Some(row) => if forward {
                is_next_match(s, row)
            } else {
                is_previous_match(s, row)
            },
            None => forall|r: int| !#[trigger] has_match(s, r),
        },
{
    let n = s.grid.len() as int;
    let c = s.cur_row;
    let q = s.last_query;
    let k = hit_is_nearest(s.grid, c, q, forward, 0);
    if k < n {
        visited_is(n, c, forward, k);
    }
    assert forall|r: int| #[trigger] has_match(s, r) implies k < n && ({
        let row = visited(n, c, forward, k);
        if forward {
            if r > c {
                c < row <= r
            } else {
                row > c || row <= r
            }
        } else {
            if r < c {
                r <= row < c
            } else {
                row < c || r <= row
            }
        }
    }) by {
        let j = if forward {
            if r > c {
                r - c - 1
            } else {
                r + n - c - 1
            }
        } else {
            if r < c {
                c - 1 - r
            } else {
                c + n - 1 - r
            }
        };
        visited_is(n, c, forward, j);
        assert(visited(n, c, forward, j) == r);
        assert(!misses(s.grid, c, q, forward, j));
        assert(k <= j);
    }
}

proof fn search_comes_to(s: StateView, forward: bool)
    requires
        on_a_cell(s),
        lower(s.last_query).len() > 0,
        s.last_query.len() > 0,
    ensures
        ({
            let t = s.searched(forward);
            &&& has_match(s, t.cur_row) && on_the_match(s, t) && (if forward {
                is_next_match(s, t.cur_row)
            } else {
                is_previous_match(s, t.cur_row)
            }) || (forall|r: int| !#[trigger] has_match(s, r)) && reports_nothing(s, t)
                && t.scroll == s.scroll
            &&& t.clamped() == t
            &&& has_match(s, t.cur_row) ==> t.scrolled() == t
        }),
{
    hits(s, forward);
    let t = s.searched(forward);
    match search_hit(s.grid, s.cur_row, s.last_query, forward) {
        Some(row) => {
            if s.grid[row].len() > 0 {
                matches_are_in_the_row(s.grid[row], s.last_query);
            } else {
                columns_end(
                    row_text(s.grid[row]),
                    match_at(s.grid[row], s.last_query)->0,
                    0,
                );
            }
            assert(t.cur_row == row);
        },
        None => {},
    }
}

/// `n` goes to the next match, below the cursor or from the top of the grid again. Where
/// the grid has none, that is reported.
pub proof fn n_goes_to_the_next_match(s: StateView, ctrl: bool)
    requires
        on_a_cell(s),
        s.mode != Mode::Search,
        s.last_query.len() > 0,
        lower(s.last_query).len() > 0,
    ensures
        ({
            let e = s.handle_key(char_key('n', ctrl));
            let t = e.state;
            &&& e.handled && e.commands.len() == 0
            &&& (exists|r: int| #[trigger] has_match(s, r)) ==> is_next_match(s, t.cur_row)
                && on_the_match(s, t)
            &&& (forall|r: int| !#[trigger] has_match(s, r)) ==> reports_nothing(s, t)
        }),
{
    search_comes_to(s, true);
    assert(s.after_key(char_key('n', ctrl)) == Some(s.searched(true)));
    assert(s.handle_key(char_key('n', ctrl)).state == s.searched(true).scrolled());
}

/// `N` goes to the previous match, above the cursor or from the bottom of the grid again.
/// Where the grid has none, that is reported.
pub proof fn capital_n_goes_to_the_previous_match(s: StateView, ctrl: bool)
    requires
        on_a_cell(s),
        s.mode != Mode::Search,
        s.last_query.len() > 0,
        lower(s.last_query).len() > 0,
    ensures
        ({
            let e = s.handle_key(char_key('N', ctrl));
            let t = e.state;
            &&& e.handled && e.commands.len() == 0
            &&& (exists|r: int| #[trigger] has_match(s, r)) ==> is_previous_match(s, t.cur_row)
                && on_the_match(s, t)
            &&& (forall|r: int| !#[trigger] has_match(s, r)) ==> reports_nothing(s, t)
        }),
{
    search_comes_to(s, false);
    assert(s.after_key(char_key('N', ctrl)) == Some(s.searched(false)));
    assert(s.handle_key(char_key('N', ctrl)).state == s.searched(false).scrolled());
}

/// The state in which the query that was typed has been noted and the input left, before
/// anything is searched for.
pub open spec fn query_noted(s: StateView) -> StateView {
    StateView {
        mode: Mode::Normal,
        last_query: s.search_input,
        search_input: Seq::empty(),
        ..s
    }
}

/// Enter notes the query and searches forward: it goes to the next match, to which `n`
/// goes as well once the query is noted. An empty query searches for nothing.
pub proof fn entering_a_query_searches_forward(s: StateView, ctrl: bool)
    requires
        on_a_cell(s),
        s.mode == Mode::Search,
        s.search_input.len() > 0 ==> lower(s.search_input).len() > 0,
    ensures
        ({
            let noted = query_noted(s);
            let e = s.handle_key(other_key(BareKey::Enter, ctrl));
            let n = noted.handle_key(char_key('n', false)).state;
            &&& e.handled && e.commands.len() == 0
            &&& s.search_input.len() == 0 ==> e.state == noted
            &&& s.search_input.len() > 0 && (exists|r: int| #[trigger] has_match(noted, r))
                ==> is_next_match(noted, e.state.cur_row) && on_the_match(noted, e.state)
                && e.state == n
            &&& s.search_input.len() > 0 && (forall|r: int| !#[trigger] has_match(noted, r))
                ==> reports_nothing(noted, e.state) && e.state.scroll == s.scroll
        }),
{
    let noted = query_noted(s);
    assert(s.query_entered() =~= noted);
    if s.search_input.len() > 0 {
        search_comes_to(noted, true);
        assert(noted.after_key(char_key('n', false)) == Some(noted.searched(true)));
        assert(noted.handle_key(char_key('n', false)).state == noted.searched(true).scrolled());
    }
}

/// Where no query was ever entered, `n` and `N` leave the cursor where it is.
pub proof fn nothing_to_search_for(s: StateView, ctrl: bool)
    requires
        on_a_cell(s),
        s.mode != Mode::Search,
        s.last_query.len() == 0,
    ensures
        ({
            let t = s.handle_key(char_key('n', ctrl)).state;
            let u = s.handle_key(char_key('N', ctrl)).state;
            &&& t == (StateView { scroll: t.scroll, ..s })
            &&& u == (StateView { scroll: u.scroll, ..s })
        }),
{
    assert(s.after_key(char_key('n', ctrl)) == Some(s));
    assert(s.after_key(char_key('N', ctrl)) == Some(s));
}

/// While a query is typed, every character is appended to it and Backspace takes the last
/// one away; the status shows the query behind a slash, and nothing else changes.
pub proof fn a_query_is_typed(s: StateView, c: char, ctrl: bool)
    requires
        s.mode == Mode::Search,
    ensures
        ({
            let e = s.handle_key(char_key(c, ctrl));
            &&& e.handled && e.commands.len() == 0
            &&& e.state.search_input == s.search_input.push(c)
            &&& e.state == (StateView {
                search_input: s.search_input.push(c),
                status: "/"@ + s.search_input.push(c),
                ..s
            })
        }),
        ({
            let e = s.handle_key(other_key(BareKey::Backspace, ctrl));
            let left = if s.search_input.len() == 0 {
                s.search_input
            } else {
                s.search_input.take(s.search_input.len() - 1)
            };
            &&& e.handled && e.commands.len() == 0
            &&& e.state == (StateView { search_input: left, status: "/"@ + left, ..s })
        }),
{
    if s.search_input.len() > 0 {
        assert(s.search_input.drop_last() =~= s.search_input.take(s.search_input.len() - 1));
    }
}

/// Escape drops the query that is typed: the cursor, the selection and the query searched
/// for last stay. Other keys mean nothing while a query is typed.
pub proof fn a_query_is_dropped(s: StateView, ctrl: bool)
    requires
        s.mode == Mode::Search,
    ensures
        ({
            let e = s.handle_key(other_key(BareKey::Esc, ctrl));
            &&& e.handled && e.commands.len() == 0
            &&& e.state == (StateView {
                mode: Mode::Normal,
                search_input: Seq::empty(),
                status: "COPY"@,
                ..s
            })
        }),
        forall|key: BareKey|
            #![trigger other_key(key, ctrl)]
            key == BareKey::Left || key == BareKey::Right || key == BareKey::Up || key
                == BareKey::Down || key == BareKey::Other ==> !s.handle_key(
                other_key(key, ctrl),
            ).handled && s.handle_key(other_key(key, ctrl)).state == s && s.handle_key(
                other_key(key, ctrl),
            ).commands.len() == 0,
{
}

} // verus!
