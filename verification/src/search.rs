//! Searching the grid, without regard to case.
use vstd::prelude::*;
use vstd::string::*;
use vstd::utf8::{encode_utf8, is_ascii_chars, is_ascii_chars_encode_utf8};

use crate::dump::{Cell, Line};
use crate::selection::row_text;
use crate::state::{State, StateView};
use crate::text::{ascii_lower_char, lower};

verus! {

/// Whether `needle` stands in `hay` at offset `i`.
pub open spec fn occurs_at(hay: Seq<u8>, needle: Seq<u8>, i: int) -> bool {
    0 <= i && i + needle.len() <= hay.len() && hay.subrange(i, i + needle.len()) == needle
}

/// The first offset, from `i` on, at which `needle` stands in `hay`.
pub open spec fn first_from(hay: Seq<u8>, needle: Seq<u8>, i: int) -> Option<int>
    decreases hay.len() + 1 - i,
{
    if i + needle.len() > hay.len() {
        None
    } else if occurs_at(hay, needle, i) {
        Some(i)
    } else {
        first_from(hay, needle, i + 1)
    }
}

/// `first_from` finds an occurrence where there is one, and no earlier one exists.
pub proof fn first_from_is_first(hay: Seq<u8>, needle: Seq<u8>, i: int)
    requires
        0 <= i,
    ensures
        match first_from(hay, needle, i) {
            Some(k) => i <= k && occurs_at(hay, needle, k) && forall|j: int|
                i <= j < k ==> !occurs_at(hay, needle, j),
            None => forall|j: int| i <= j ==> !occurs_at(hay, needle, j),
        },
    decreases hay.len() + 1 - i,
{
    if i + needle.len() <= hay.len() && !occurs_at(hay, needle, i) {
        first_from_is_first(hay, needle, i + 1);
    }
}

/// Whether `needle` stands in `hay` at offset `i`.
fn stands_at(hay: &[u8], needle: &[u8], i: usize) -> (r: bool)
    requires
        i + needle.len() <= hay.len(),
    ensures
        r == occurs_at(hay@, needle@, i as int),
{
    let mut k: usize = 0;
    while k < needle.len()
        invariant
            k <= needle.len(),
            i + needle.len() <= hay.len(),
            forall|j: int| 0 <= j < k ==> hay@[i + j] == needle@[j],
        decreases needle.len() - k,
    {
        if hay[i + k] != needle[k] {
            assert(hay@.subrange(i as int, i + needle@.len())[k as int] != needle@[k as int]);
            return false;
        }
        k = k + 1;
    }
    assert(hay@.subrange(i as int, i + needle@.len()) =~= needle@);
    true
}

/// The byte offset at which `query` first stands in `hay`.
pub fn find_text(hay: &str, query: &str) -> (r: Option<usize>)
    ensures
        match r {
            Some(i) => first_from(encode_utf8(hay@), encode_utf8(query@), 0) == Some(i as int),
            None => first_from(encode_utf8(hay@), encode_utf8(query@), 0) is None,
        },
{
    let h: &[u8] = hay.as_bytes();
    let q: &[u8] = query.as_bytes();
    let mut i: usize = 0;
    while q.len() <= h.len() && i <= h.len() - q.len()
        invariant
            h@ == encode_utf8(hay@),
            q@ == encode_utf8(query@),
            i <= h.len(),
            first_from(h@, q@, 0) == first_from(h@, q@, i as int),
        decreases h.len() - i,
    {
        if stands_at(h, q, i) {
            return Some(i);
        }
        assert(i < h.len()) by {
            if i == h.len() {
                assert(h@.subrange(i as int, i as int) =~= q@);
            }
        }
        i = i + 1;
    }
    None
}

/// The number of bytes that the lower case of a text takes.
pub open spec fn lower_len(text: Seq<char>) -> int {
    encode_utf8(lower(text)).len() as int
}

/// The number of characters at the start of a text, `k` of them known to be among these,
/// of which the lower case ends at or before byte `offset`.
pub open spec fn chars_before_from(text: Seq<char>, offset: int, k: int) -> int
    decreases text.len() - k,
{
    if 0 <= k < text.len() && lower_len(text.take(k + 1)) <= offset {
        chars_before_from(text, offset, k + 1)
    } else {
        k
    }
}

/// The number of characters at the start of a text of which the lower case ends at or
/// before byte `offset`: the column of the character that stands at this offset of the
/// lower-case text, whether or not lower case takes more or fewer bytes.
pub open spec fn chars_before(text: Seq<char>, offset: int) -> int {
    chars_before_from(text, offset, 0)
}

/// The column of the character of a row that stands at byte `offset` of the row's
/// lower-case text.
pub fn column_at(line: &Line, offset: usize) -> (r: usize)
    ensures
        r == chars_before(row_text(line@), offset as int),
        r <= line.len(),
{
    let ghost text = row_text(line@);
    let mut head = String::new();
    let mut k: usize = 0;
    assert(text.take(0) =~= seq![]);
    while k < line.len()
        invariant
            k <= line.len(),
            text == row_text(line@),
            head@ == text.take(k as int),
            chars_before(text, offset as int) == chars_before_from(
                text,
                offset as int,
                k as int,
            ),
        decreases line.len() - k,
    {
        head.push(line[k].ch);
        assert(head@ =~= text.take(k + 1));
        let lowered = head.as_str().to_lowercase();
        if lowered.as_str().as_bytes().len() > offset {
            return k;
        }
        k = k + 1;
    }
    k
}

proof fn encoding_takes_bytes(text: Seq<char>)
    requires
        text.len() > 0,
    ensures
        encode_utf8(text).len() > 0,
{
}

/// A column is never behind the end of its row, nor at it where the offset is within the
/// lower-case text.
pub proof fn column_bound(text: Seq<char>, offset: int, k: int)
    requires
        0 <= k <= text.len(),
    ensures
        k <= chars_before_from(text, offset, k) <= text.len(),
        k < text.len() && offset < lower_len(text) ==> chars_before_from(text, offset, k)
            < text.len(),
    decreases text.len() - k,
{
    if k < text.len() && lower_len(text.take(k + 1)) <= offset {
        if k + 1 == text.len() {
            assert(text.take(k + 1) =~= text);
        }
        column_bound(text, offset, k + 1);
    }
}

/// A match of a query that has a lower case is at a character of its row.
pub proof fn matches_are_in_the_row(row: Seq<Cell>, query: Seq<char>)
    requires
        lower(query).len() > 0,
        match_at(row, query) is Some,
        row.len() > 0,
    ensures
        0 <= chars_before(row_text(row), match_at(row, query)->0) < row.len(),
{
    let offset = match_at(row, query)->0;
    first_from_is_first(
        encode_utf8(lower(row_text(row))),
        encode_utf8(lower(query)),
        0,
    );
    encoding_takes_bytes(lower(query));
    column_bound(row_text(row), offset, 0);
}

proof fn ascii_lower_is_ascii(text: Seq<char>)
    requires
        is_ascii_chars(text),
    ensures
        is_ascii_chars(lower(text)),
        lower(text).len() == text.len(),
{
    assert forall|i: int| 0 <= i < text.len() implies '\0' <= #[trigger] lower(text)[i]
        <= '\u{7f}' by {
        assert('\0' <= text[i] <= '\u{7f}');
    }
}

proof fn ascii_columns_from(text: Seq<char>, offset: int, k: int)
    requires
        is_ascii_chars(text),
        0 <= k <= offset <= text.len(),
    ensures
        chars_before_from(text, offset, k) == offset,
    decreases text.len() - k,
{
    if k < text.len() {
        let head = text.take(k + 1);
        assert(is_ascii_chars(head)) by {
            assert forall|i: int| 0 <= i < head.len() implies '\0' <= #[trigger] head[i]
                <= '\u{7f}' by {
                assert('\0' <= text[i] <= '\u{7f}');
            }
        }
        ascii_lower_is_ascii(head);
        is_ascii_chars_encode_utf8(lower(head));
        if k < offset {
            ascii_columns_from(text, offset, k + 1);
        }
    }
}

/// In an ASCII row the column of a match is its offset.
pub proof fn ascii_columns_are_offsets(text: Seq<char>, offset: int)
    requires
        is_ascii_chars(text),
        0 <= offset <= text.len(),
    ensures
        chars_before(text, offset) == offset,
{
    ascii_columns_from(text, offset, 0);
}

/// The characters of a row, as a string.
pub fn line_text(line: &Line) -> (r: String)
    ensures
        r@ == row_text(line@),
{
    let mut out = String::new();
    let mut i: usize = 0;
    assert(row_text(line@).take(0) =~= seq![]);
    while i < line.len()
        invariant
            i <= line.len(),
            out@ == row_text(line@).take(i as int),
        decreases line.len() - i,
    {
        out.push(line[i].ch);
        i = i + 1;
        assert(out@ =~= row_text(line@).take(i as int));
    }
    assert(row_text(line@).take(line.len() as int) =~= row_text(line@));
    out
}

/// The byte offset of the first match of a query in the lower-case text of a row.
pub open spec fn match_at(row: Seq<Cell>, query: Seq<char>) -> Option<int> {
    first_from(encode_utf8(lower(row_text(row))), encode_utf8(lower(query)), 0)
}

/// Whether an ASCII text holds the letters of `query` from column `i` on, in upper or in
/// lower case.
pub open spec fn reads_at(text: Seq<char>, query: Seq<char>, i: int) -> bool {
    &&& 0 <= i
    &&& i + query.len() <= text.len()
    &&& forall|j: int|
        0 <= j < query.len() ==> ascii_lower_char(#[trigger] query[j]) == ascii_lower_char(
            text[i + j],
        )
}

proof fn ascii_occurrences(text: Seq<char>, query: Seq<char>, i: int)
    requires
        is_ascii_chars(text),
        is_ascii_chars(query),
    ensures
        occurs_at(encode_utf8(lower(text)), encode_utf8(lower(query)), i) <==> reads_at(
            text,
            query,
            i,
        ),
{
    ascii_lower_is_ascii(text);
    ascii_lower_is_ascii(query);
    let h = encode_utf8(lower(text));
    let q = encode_utf8(lower(query));
    is_ascii_chars_encode_utf8(lower(text));
    is_ascii_chars_encode_utf8(lower(query));
    if 0 <= i && i + query.len() <= text.len() {
        assert forall|j: int| 0 <= j < query.len() implies (h.subrange(i, i + q.len())[j] == q[j]
            <==> ascii_lower_char(#[trigger] query[j]) == ascii_lower_char(text[i + j])) by {
            assert(h[i + j] == lower(text)[i + j] as u8);
            assert(q[j] == lower(query)[j] as u8);
        }
        if reads_at(text, query, i) {
            assert(h.subrange(i, i + q.len()) =~= q);
        }
        if occurs_at(h, q, i) {
            assert forall|j: int| 0 <= j < query.len() implies ascii_lower_char(
                #[trigger] query[j],
            ) == ascii_lower_char(text[i + j]) by {
                assert(h.subrange(i, i + q.len())[j] == q[j]);
            }
        }
    }
}

/// In an ASCII row an ASCII query is found at the first column from which the row reads
/// as the query does, case aside, and nowhere where it reads so nowhere.
pub proof fn ascii_matches_are_readings(row: Seq<Cell>, query: Seq<char>)
    requires
        is_ascii_chars(row_text(row)),
        is_ascii_chars(query),
    ensures
        match match_at(row, query) {
            Some(i) => {
                &&& reads_at(row_text(row), query, i)
                &&& forall|j: int| 0 <= j < i ==> !#[trigger] reads_at(row_text(row), query, j)
                &&& chars_before(row_text(row), i) == i
            },
            None => forall|j: int| !#[trigger] reads_at(row_text(row), query, j),
        },
{
    let text = row_text(row);
    assert forall|j: int| #[trigger] reads_at(text, query, j) <==> occurs_at(
        encode_utf8(lower(text)),
        encode_utf8(lower(query)),
        j,
    ) by {
        ascii_occurrences(text, query, j);
    }
    first_from_is_first(encode_utf8(lower(text)), encode_utf8(lower(query)), 0);
    match match_at(row, query) {
        Some(i) => {
            assert(reads_at(text, query, i));
            ascii_columns_are_offsets(text, i);
        },
        None => {},
    }
}

/// The row of a grid with `n` rows that a search from row `from` looks at after `i`
/// others: it goes down or up from there, round the ends of the grid, and comes to the
/// row it started from last.
pub open spec fn visited(n: int, from: int, forward: bool, i: int) -> int {
    if forward {
        (from + 1 + i) % n
    } else {
        (from + n - 1 - i) % n
    }
}

/// The first row with a match, after `i` others have been looked at.
pub open spec fn hit_from(
    grid: Seq<Seq<Cell>>,
    from: int,
    query: Seq<char>,
    forward: bool,
    i: int,
) -> Option<int>
    decreases grid.len() - i,
{
    if i >= grid.len() {
        None
    } else {
        let row = visited(grid.len() as int, from, forward, i);
        if match_at(grid[row], query) is Some {
            Some(row)
        } else {
            hit_from(grid, from, query, forward, i + 1)
        }
    }
}

/// The row that a search finds.
pub open spec fn search_hit(
    grid: Seq<Seq<Cell>>,
    from: int,
    query: Seq<char>,
    forward: bool,
) -> Option<int> {
    hit_from(grid, from, query, forward, 0)
}

impl StateView {
    /// The state after a search: the cursor on the match, or a note that there is none.
    /// An empty query, and an empty grid, change nothing.
    pub open spec fn searched(self, forward: bool) -> StateView {
        if self.last_query.len() == 0 || self.grid.len() == 0 {
            self
        } else {
            match search_hit(self.grid, self.cur_row, self.last_query, forward) {
                None => StateView { status: "not found: "@ + self.last_query, ..self },
                Some(row) => (StateView {
                    cur_row: row,
                    cur_col: chars_before(
                        row_text(self.grid[row]),
                        match_at(self.grid[row], self.last_query)->0,
                    ),
                    ..self
                }).scrolled(),
            }
        }
    }
}

proof fn next_remainder(a: int, n: int)
    requires
        n > 0,
        a >= 0,
    ensures
        (a + 1) % n == if a % n + 1 == n {
            0
        } else {
            a % n + 1
        },
        (a + n) % n == a % n,
        0 <= a % n < n,
{
    vstd::arithmetic::div_mod::lemma_fundamental_div_mod(a, n);
    vstd::arithmetic::div_mod::lemma_mod_bound(a, n);
    let q = a / n;
    let r = a % n;
    if r + 1 == n {
        assert(a + 1 == (q + 1) * n) by (nonlinear_arith)
            requires
                a == n * q + r,
                r + 1 == n,
        ;
        vstd::arithmetic::div_mod::lemma_fundamental_div_mod_converse(a + 1, n, q + 1, 0);
    } else {
        assert(a + 1 == q * n + (r + 1)) by (nonlinear_arith)
            requires
                a == n * q + r,
        ;
        vstd::arithmetic::div_mod::lemma_fundamental_div_mod_converse(a + 1, n, q, r + 1);
    }
    vstd::arithmetic::div_mod::lemma_mod_add_multiples_vanish(a, n);
}

impl State {
    /// The row that a search from the cursor finds, and the byte offset of the match in
    /// the lower-case text of that row. A match of a query that is not empty is at one of
    /// the row's characters.
    pub fn find_match(&self, query: &str, forward: bool) -> (r: Option<(usize, usize)>)
        requires
            self.grid.len() > 0,
        ensures
            match r {
                None => search_hit(self@.grid, self@.cur_row, query@, forward) is None,
                Some((row, offset)) => row < self.grid.len() && search_hit(
                    self@.grid,
                    self@.cur_row,
                    query@,
                    forward,
                ) == Some(row as int) && match_at(self@.grid[row as int], query@) == Some(
                    offset as int,
                ) && (query@.len() > 0 && self@.grid[row as int].len() > 0 ==> chars_before(
                    row_text(self@.grid[row as int]),
                    offset as int,
                ) < self@.grid[row as int].len()),
            },
    {
        let lowered = query.to_lowercase();
        let n: usize = self.grid.len();
        let mut i: usize = 0;
        let mut row: usize = self.cur_row % n;
        proof {
            next_remainder(self.cur_row as int, n as int);
            next_remainder(self.cur_row + n - 1, n as int);
        }
        if forward {
            row = if row + 1 == n {
                0
            } else {
                row + 1
            };
        } else {
            row = if row == 0 {
                n - 1
            } else {
                row - 1
            };
        }
        while i < n
            invariant
                i <= n,
                n == self.grid.len(),
                n > 0,
                row < n,
                lowered@ == lower(query@),
                lowered@.len() >= query@.len(),
                row == visited(n as int, self@.cur_row, forward, i as int),
                search_hit(self@.grid, self@.cur_row, query@, forward) == hit_from(
                    self@.grid,
                    self@.cur_row,
                    query@,
                    forward,
                    i as int,
                ),
            decreases n - i,
        {
            let hay = line_text(&self.grid[row]);
            assert(self@.grid[row as int] == self.grid[row as int]@);
            match find_text(hay.as_str().to_lowercase().as_str(), lowered.as_str()) {
                Some(offset) => {
                    proof {
                        let cells = self@.grid[row as int];
                        if query@.len() > 0 && cells.len() > 0 {
                            matches_are_in_the_row(cells, query@);
                        }
                    }
                    return Some((row, offset));
                },
                None => {},
            }
            proof {
                next_remainder(self.cur_row + 1 + i, n as int);
                if i + 1 < n {
                    next_remainder(self.cur_row + n - 1 - (i + 1), n as int);
                } else {
                    next_remainder(self.cur_row as int, n as int);
                    if self.cur_row > 0 {
                        next_remainder(self.cur_row - 1, n as int);
                    }
                }
            }
            if i + 1 == n {
                assert(hit_from(self@.grid, self@.cur_row, query@, forward, i + 1) is None);
                return None;
            }
            if forward {
                row = if row + 1 == n {
                    0
                } else {
                    row + 1
                };
            } else {
                row = if row == 0 {
                    n - 1
                } else {
                    row - 1
                };
            }
            i = i + 1;
        }
        None
    }

    /// Searches for the last query, from the row after the cursor downwards or from the
    /// row before it upwards, and puts the cursor on the character at which the match
    /// begins.
    pub fn run_search(&mut self, forward: bool)
        ensures
            final(self)@ == old(self)@.searched(forward),
            old(self)@.cursor_in_grid() ==> final(self)@.cursor_in_grid(),
    {
        if self.last_query.as_str().is_empty() || self.grid.is_empty() {
            return;
        }
        match self.find_match(self.last_query.as_str(), forward) {
            Some((row, offset)) => {
                assert(self@.grid[row as int] == self.grid[row as int]@);
                self.cur_col = column_at(&self.grid[row], offset);
                self.cur_row = row;
                self.scroll_to_cursor();
            },
            None => {
                let mut status = "not found: ".to_owned();
                status.append(self.last_query.as_str());
                self.status = status;
            },
        }
    }
}

/// Whether the row that a search looks at after `j` others has no match.
pub open spec fn misses(
    grid: Seq<Seq<Cell>>,
    from: int,
    query: Seq<char>,
    forward: bool,
    j: int,
) -> bool {
    match_at(grid[visited(grid.len() as int, from, forward, j)], query) is None
}

/// Finds how many rows a search passes before it comes to a match: all, where it finds
/// none.
pub proof fn hit_is_nearest(
    grid: Seq<Seq<Cell>>,
    from: int,
    query: Seq<char>,
    forward: bool,
    i: int,
) -> (k: int)
    requires
        0 <= i <= grid.len(),
    ensures
        i <= k <= grid.len(),
        forall|j: int| i <= j < k ==> #[trigger] misses(grid, from, query, forward, j),
        k < grid.len() ==> !misses(grid, from, query, forward, k),
        hit_from(grid, from, query, forward, i) == if k < grid.len() {
            Some(visited(grid.len() as int, from, forward, k))
        } else {
            None
        },
    decreases grid.len() - i,
{
    if i == grid.len() || !misses(grid, from, query, forward, i) {
        i
    } else {
        hit_is_nearest(grid, from, query, forward, i + 1)
    }
}

proof fn nearest_is_hit(
    grid: Seq<Seq<Cell>>,
    from: int,
    query: Seq<char>,
    forward: bool,
    i: int,
    k: int,
)
    requires
        0 <= i <= k < grid.len(),
        !misses(grid, from, query, forward, k),
        forall|j: int| i <= j < k ==> #[trigger] misses(grid, from, query, forward, j),
    ensures
        hit_from(grid, from, query, forward, i) == Some(
            visited(grid.len() as int, from, forward, k),
        ),
    decreases k - i,
{
    if i < k {
        assert(misses(grid, from, query, forward, i));
        nearest_is_hit(grid, from, query, forward, i + 1, k);
    }
}

proof fn every_row_is_visited(n: int, from: int, forward: bool, row: int)
    requires
        0 <= row < n,
        0 <= from,
    ensures
        exists|j: int| 0 <= j < n && row == #[trigger] visited(n, from, forward, j),
{
    if forward {
        let j = (row - from - 1) % n;
        vstd::arithmetic::div_mod::lemma_mod_bound(row - from - 1, n);
        vstd::arithmetic::div_mod::lemma_add_mod_noop_right(from + 1, row - from - 1, n);
        vstd::arithmetic::div_mod::lemma_small_mod(row as nat, n as nat);
        assert(visited(n, from, forward, j) == row);
    } else {
        let j = (from + n - 1 - row) % n;
        vstd::arithmetic::div_mod::lemma_mod_bound(from + n - 1 - row, n);
        vstd::arithmetic::div_mod::lemma_sub_mod_noop_right(
            from + n - 1,
            from + n - 1 - row,
            n,
        );
        vstd::arithmetic::div_mod::lemma_small_mod(row as nat, n as nat);
        assert(visited(n, from, forward, j) == row);
    }
}

/// A search finds a row exactly where some row has a match, and the row it finds is one
/// with a match.
pub proof fn search_finds_what_there_is(
    grid: Seq<Seq<Cell>>,
    from: int,
    query: Seq<char>,
    forward: bool,
)
    requires
        grid.len() > 0,
        0 <= from,
    ensures
        match search_hit(grid, from, query, forward) {
            Some(row) => 0 <= row < grid.len() && match_at(grid[row], query) is Some,
            None => forall|row: int|
                0 <= row < grid.len() ==> match_at(#[trigger] grid[row], query) is None,
        },
{
    let n = grid.len() as int;
    let k = hit_is_nearest(grid, from, query, forward, 0);
    if k < n {
        vstd::arithmetic::div_mod::lemma_mod_bound(from + 1 + k, n);
        vstd::arithmetic::div_mod::lemma_mod_bound(from + n - 1 - k, n);
    } else {
        assert forall|row: int| 0 <= row < n implies match_at(
            #[trigger] grid[row],
            query,
        ) is None by {
            every_row_is_visited(n, from, forward, row);
            let j = choose|j: int| 0 <= j < n && row == #[trigger] visited(n, from, forward, j);
            assert(misses(grid, from, query, forward, j));
        }
    }
}

/// The row that a search finds is the first one with a match that it comes to.
pub proof fn search_takes_the_nearest(
    grid: Seq<Seq<Cell>>,
    from: int,
    query: Seq<char>,
    forward: bool,
)
    requires
        grid.len() > 0,
        search_hit(grid, from, query, forward) is Some,
    ensures
        exists|k: int|
            0 <= k < grid.len() && search_hit(grid, from, query, forward)->0 == #[trigger] visited(
                grid.len() as int,
                from,
                forward,
                k,
            ) && forall|j: int| 0 <= j < k ==> #[trigger] misses(grid, from, query, forward, j),
{
    let k = hit_is_nearest(grid, from, query, forward, 0);
    assert(search_hit(grid, from, query, forward)->0 == visited(
        grid.len() as int,
        from,
        forward,
        k,
    ));
}

/// Searching back takes a search forward back: where the cursor's own row has a match,
/// `n` and then `N` come back to that row.
pub proof fn searching_back_returns(s: StateView)
    requires
        0 <= s.cur_row < s.grid.len(),
        s.last_query.len() > 0,
        match_at(s.grid[s.cur_row], s.last_query) is Some,
    ensures
        s.searched(true).searched(false).cur_row == s.cur_row,
{
    let n = s.grid.len() as int;
    let c = s.cur_row;
    let q = s.last_query;
    search_finds_what_there_is(s.grid, c, q, true);
    let k = hit_is_nearest(s.grid, c, q, true, 0);
    let t = s.searched(true);
    let r = search_hit(s.grid, c, q, true)->0;
    assert(t.cur_row == r && t.grid == s.grid && t.last_query == q);
    assert(r == visited(n, c, true, k)) by {
        if k == n {
            every_row_is_visited(n, c, true, c);
            let j = choose|j: int| 0 <= j < n && c == #[trigger] visited(n, c, true, j);
            assert(misses(s.grid, c, q, true, j));
        }
    }
    assert forall|j: int| 0 <= j <= k implies #[trigger] visited(n, r, false, j) == (c + k - j)
        % n by {
        vstd::arithmetic::div_mod::lemma_add_mod_noop_right(n - 1 - j, c + 1 + k, n);
        vstd::arithmetic::div_mod::lemma_mod_add_multiples_vanish(c + k - j, n);
        assert(n - 1 - j + (c + 1 + k) == n + (c + k - j));
    }
    assert forall|j: int| 0 <= j < k implies #[trigger] misses(s.grid, r, q, false, j) by {
        assert(visited(n, r, false, j) == (c + k - j) % n);
        assert(visited(n, c, true, k - 1 - j) == (c + k - j) % n);
        assert(misses(s.grid, c, q, true, k - 1 - j));
    }
    vstd::arithmetic::div_mod::lemma_small_mod(c as nat, n as nat);
    assert(visited(n, r, false, k) == c);
    nearest_is_hit(s.grid, r, q, false, 0, k);
}

proof fn hit_ignores_case(
    grid: Seq<Seq<Cell>>,
    from: int,
    a: Seq<char>,
    b: Seq<char>,
    forward: bool,
    i: int,
)
    requires
        lower(a) == lower(b),
    ensures
        hit_from(grid, from, a, forward, i) == hit_from(grid, from, b, forward, i),
    decreases grid.len() - i,
{
    if i < grid.len() {
        hit_ignores_case(grid, from, a, b, forward, i + 1);
    }
}

/// Case does not matter: queries with the same lower case find the same row, and the
/// same match in it.
pub proof fn search_ignores_case(
    grid: Seq<Seq<Cell>>,
    from: int,
    a: Seq<char>,
    b: Seq<char>,
    forward: bool,
)
    requires
        lower(a) == lower(b),
    ensures
        search_hit(grid, from, a, forward) == search_hit(grid, from, b, forward),
        forall|row: Seq<Cell>| #[trigger] match_at(row, a) == match_at(row, b),
{
    hit_ignores_case(grid, from, a, b, forward, 0);
}

} // verus!
