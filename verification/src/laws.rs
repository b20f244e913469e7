//! What holds of copy mode as a whole.
use vstd::prelude::*;

use crate::command::CommandView;
use crate::dump::Cell;
use crate::events::{EventView, Redraw};
use crate::keys::{exit_commands, run_end, run_start, BareKey, KeyWithModifier};
use crate::panes::{candidates, holds_own, is_candidate, own_tab, tab_candidates, PaneInfo, TabView};
use crate::plugin::{PaneContentsView, MAX_DUMP_ATTEMPTS};
use crate::search::{column_bound, match_at, search_finds_what_there_is, search_hit};
use crate::selection::row_text;
use crate::state::{larger, reads_before, smaller, Mode, PaneId, StateView};
use crate::text::whitespace;

verus! {

impl StateView {
    /// Whether no position is negative.
    pub open spec fn valid(self) -> bool {
        &&& 0 <= self.cur_row
        &&& 0 <= self.cur_col
        &&& 0 <= self.scroll
        &&& 0 <= self.rows
        &&& 0 <= self.cols
    }
}

/// A key press without modifiers.
pub open spec fn plain_key(c: char) -> KeyWithModifier {
    KeyWithModifier { bare_key: BareKey::Char(c), ctrl: false }
}

/// The escape key.
pub open spec fn esc_key() -> KeyWithModifier {
    KeyWithModifier { bare_key: BareKey::Esc, ctrl: false }
}

/// Clamping brings the cursor into the grid, and leaves a cursor that is there.
pub proof fn clamping_is_sound(s: StateView)
    requires
        s.valid(),
    ensures
        s.clamped().cursor_in_grid(),
        s.cursor_in_grid() ==> s.clamped() == s,
        s.clamped().clamped() == s.clamped(),
{
}

/// Scrolling brings the cursor's row into view, and leaves a view that shows it.
pub proof fn scrolling_is_sound(s: StateView)
    requires
        s.valid(),
    ensures
        s.scrolled().cursor_visible(),
        s.cursor_visible() ==> s.scrolled() == s,
        0 <= s.scrolled().scroll <= larger(s.scroll, s.cur_row),
{
}

/// Every key that moves the cursor leaves it on a cell of the grid, in a row that is
/// visible.
pub proof fn keys_keep_the_cursor(s: StateView, key: KeyWithModifier)
    requires
        s.valid(),
        s.mode != Mode::Search,
        !s.yanks(key),
        s.handle_key(key).handled,
    ensures
        s.handle_key(key).state.cursor_in_grid(),
        s.handle_key(key).state.cursor_visible(),
{
    let next = s.after_key(key)->0;
    after_key_is_valid(s, key);
    clamping_is_sound(next);
    scrolling_is_sound(next.clamped());
}

/// Whether two states agree on all that keys do not change.
spec fn same_rest(s: StateView, t: StateView) -> bool {
    &&& t.permissions_granted == s.permissions_granted
    &&& t.self_id == s.self_id
    &&& t.host_cwd == s.host_cwd
    &&& t.target == s.target
    &&& t.last_focused_terminal == s.last_focused_terminal
    &&& t.entered == s.entered
    &&& t.loaded == s.loaded
    &&& t.colored == s.colored
    &&& t.target_geom == s.target_geom
    &&& t.target_cursor == s.target_cursor
    &&& t.viewport_start == s.viewport_start
    &&& t.needs_initial_scroll == s.needs_initial_scroll
    &&& t.grid == s.grid
    &&& t.rows == s.rows
    &&& t.cols == s.cols
    &&& t.dump_attempts == s.dump_attempts
    &&& t.dbg_panes == s.dbg_panes
}

proof fn searching_is_valid(s: StateView, forward: bool)
    ensures
        same_rest(s, s.searched(forward)),
        s.valid() ==> s.searched(forward).valid(),
{
    if s.valid() && s.grid.len() > 0 && s.last_query.len() > 0 {
        search_finds_what_there_is(s.grid, s.cur_row, s.last_query, forward);
        match search_hit(s.grid, s.cur_row, s.last_query, forward) {
            Some(row) => {
                column_bound(
                    row_text(s.grid[row]),
                    match_at(s.grid[row], s.last_query)->0,
                    0,
                );
            },
            None => {},
        }
    }
}

proof fn words_are_valid(s: StateView)
    ensures
        same_rest(s, s.word_forward()),
        same_rest(s, s.word_back()),
        s.valid() ==> s.word_forward().valid() && s.word_back().valid(),
{
    if s.valid() {
        let line = s.cursor_line();
        run_bounds(line, s.cur_col, false);
        run_bounds(line, run_end(line, s.cur_col, false), true);
        run_bounds(line, s.cur_col, true);
        run_bounds(line, run_start(line, s.cur_col, true), false);
    }
}

proof fn after_char_is_valid(s: StateView, c: char, ctrl: bool)
    requires
        s.after_char(c, ctrl) is Some,
    ensures
        same_rest(s, s.after_char(c, ctrl)->0),
        s.valid() ==> (s.after_char(c, ctrl)->0).valid(),
{
    if c == 'n' || c == 'N' {
        searching_is_valid(s, true);
        searching_is_valid(s, false);
    } else if c == 'w' || (c == 'b' && !ctrl) {
        words_are_valid(s);
    }
}

proof fn after_key_is_valid(s: StateView, key: KeyWithModifier)
    requires
        s.after_key(key) is Some,
    ensures
        same_rest(s, s.after_key(key)->0),
        s.valid() ==> (s.after_key(key)->0).valid(),
{
    match key.bare_key {
        BareKey::Char(c) => {
            after_char_is_valid(s, c, key.ctrl);
        },
        _ => {},
    }
}

proof fn run_bounds(line: Seq<Cell>, i: int, blank: bool)
    requires
        0 <= i,
    ensures
        i <= run_end(line, i, blank),
        0 <= run_start(line, i, blank) <= i,
{
    run_end_bound(line, i, blank);
    run_start_bound(line, i, blank);
}

proof fn run_end_bound(line: Seq<Cell>, i: int, blank: bool)
    ensures
        i <= run_end(line, i, blank),
    decreases line.len() - i,
{
    if 0 <= i < line.len() && whitespace(line[i].ch) == blank {
        run_end_bound(line, i + 1, blank);
    }
}

proof fn run_start_bound(line: Seq<Cell>, i: int, blank: bool)
    requires
        0 <= i,
    ensures
        0 <= run_start(line, i, blank) <= i,
    decreases i,
{
    if 0 < i <= line.len() && whitespace(line[i - 1].ch) == blank {
        run_start_bound(line, i - 1, blank);
    }
}

/// Where the grid is replaced, the cursor is in the new one, and a paint leaves it there.
pub proof fn new_grids_hold_the_cursor(
    s: StateView,
    contents: PaneContentsView,
    parsed: Seq<Seq<Cell>>,
    rows: int,
    cols: int,
)
    requires
        s.valid(),
        s.cursor_in_grid(),
    ensures
        s.scrollback_shown(contents, parsed).cursor_in_grid(),
        s.dump_shown(parsed).cursor_in_grid(),
        s.after_render(rows, cols).cursor_in_grid(),
{
    let start = contents.above.len() as int;
    let size = vstd::utf8::encode_utf8(contents.text()).len() as int;
    let shown = (StateView { viewport_start: start, ..s }).ingested(parsed, size);
    let followed = shown.at_target_cursor(start);
    assert(followed.clamped().cursor_in_grid());
    if parsed.len() > 0 {
        clamping_is_sound(StateView { grid: parsed, colored: true, ..s });
    }
}

/// Keys change the cursor, the view, the mode, the selection, the queries and the
/// status, and nothing else: the grid and all that concerns the target stay.
pub proof fn keys_leave_the_rest(s: StateView, key: KeyWithModifier)
    ensures
        ({
            let t = s.handle_key(key).state;
            t == (StateView {
                scroll: t.scroll,
                cur_row: t.cur_row,
                cur_col: t.cur_col,
                mode: t.mode,
                anchor: t.anchor,
                search_input: t.search_input,
                last_query: t.last_query,
                status: t.status,
                ..s
            })
        }),
{
    let t = s.handle_key(key).state;
    if s.mode == Mode::Search {
        if key.bare_key == BareKey::Enter {
            searching_is_valid(s.query_entered(), true);
        }
    } else if !s.yanks(key) && s.after_key(key) is Some {
        let next = s.after_key(key)->0;
        after_key_is_valid(s, key);
        assert(same_rest(next, next.clamped()));
        assert(same_rest(next.clamped(), next.clamped().scrolled()));
    }
    assert(same_rest(s, t));
}

/// Switching a selection on and off again leaves no selection and changes nothing else.
pub proof fn toggling_twice(s: StateView, mode: Mode)
    requires
        s.mode != mode,
    ensures
        s.toggled(mode).toggled(mode) == (StateView { mode: Mode::Normal, anchor: None, ..s }),
        s.mode == Mode::Normal && s.anchor is None ==> s.toggled(mode).toggled(mode) == s,
{
}

/// A selection that has just been started is the cell under the cursor, and escape
/// drops it: copy mode is as it was, and is not left.
pub proof fn escape_cancels_a_selection(s: StateView, c: char)
    requires
        s.valid(),
        s.mode == Mode::Normal,
        s.anchor is None,
        s.cursor_in_grid(),
        s.cursor_visible(),
        c == 'v' || c == 'V',
    ensures
        ({
            let started = s.handle_key(plain_key(c)).state;
            let back = started.handle_key(esc_key());
            &&& started.selection() == Some(((s.cur_row, s.cur_col), (s.cur_row, s.cur_col)))
            &&& started.is_selected(s.cur_row, s.cur_col)
            &&& back.state == s
            &&& back.handled
            &&& back.commands.len() == 0
        }),
{
    let t = s.toggled(
        if c == 'v' {
            Mode::Visual
        } else {
            Mode::VisualLine
        },
    );
    clamping_is_sound(t);
    scrolling_is_sound(t);
    assert(s.after_key(plain_key(c)) == Some(t));
    let started = s.handle_key(plain_key(c)).state;
    assert(started == t);
    clamping_is_sound(s);
    scrolling_is_sound(s);
    assert(started.after_key(esc_key()) == Some(s));
}

/// A yank leaves the state as it is. It copies the text of the selection, unless that is
/// empty, and it always leaves copy mode.
pub proof fn yank_copies_and_leaves(s: StateView, key: KeyWithModifier)
    requires
        s.mode != Mode::Search,
        s.yanks(key),
    ensures
        s.handle_key(key).state == s,
        s.handle_key(key).handled,
        s.selected_text().len() > 0 ==> s.handle_key(key).commands == seq![
            CommandView::CopyToClipboard(s.selected_text()),
        ] + exit_commands(),
        s.selected_text().len() == 0 ==> s.handle_key(key).commands == exit_commands(),
{
}

/// `g` goes to the first row and `G` to the last one, `0` to the first column and `$` to
/// the last one.
pub proof fn corner_motions(s: StateView)
    requires
        s.valid(),
        s.mode != Mode::Search,
        s.grid.len() > 0,
        s.cursor_in_grid(),
    ensures
        s.handle_key(plain_key('g')).state.cur_row == 0,
        s.handle_key(plain_key('G')).state.cur_row == s.grid.len() - 1,
        s.handle_key(plain_key('0')).state.cur_row == s.cur_row,
        s.handle_key(plain_key('0')).state.cur_col == 0,
        s.handle_key(plain_key('$')).state.cur_row == s.cur_row,
        s.handle_key(plain_key('$')).state.cur_col == larger(s.line_len(s.cur_row) - 1, 0),
{
    assert(s.after_key(plain_key('g')) == Some(StateView { cur_row: 0, ..s }));
    assert(s.after_key(plain_key('G')) == Some(StateView { cur_row: s.grid.len() - 1, ..s }));
    assert(s.after_key(plain_key('0')) == Some(s.at_column(0)));
    assert(s.after_key(plain_key('$')) == Some(s.at_column(s.line_len(s.cur_row) - 1)));
}

impl StateView {
    /// By how many rows the key moves the cursor down.
    pub open spec fn rows_down(self, key: KeyWithModifier) -> Option<int> {
        match key.bare_key {
            BareKey::Down => Some(1),
            BareKey::Up => Some(-1),
            BareKey::Char('j') => Some(1),
            BareKey::Char('k') => Some(-1),
            BareKey::Char('d') if key.ctrl => Some(self.half_page()),
            BareKey::Char('u') if key.ctrl => Some(-self.half_page()),
            BareKey::Char('f') if key.ctrl => Some(self.page()),
            BareKey::Char('b') if key.ctrl => Some(-self.page()),
            _ => None,
        }
    }

    /// By how many columns the key moves the cursor to the right.
    pub open spec fn columns_right(self, key: KeyWithModifier) -> Option<int> {
        match key.bare_key {
            BareKey::Right => Some(1),
            BareKey::Left => Some(-1),
            BareKey::Char('l') => Some(1),
            BareKey::Char('h') => Some(-1),
            _ => None,
        }
    }
}

proof fn row_keys_move(s: StateView, key: KeyWithModifier)
    requires
        s.rows_down(key) is Some,
    ensures
        s.after_key(key) == Some(s.down(s.rows_down(key)->0)),
        !s.yanks(key),
{
}

proof fn column_keys_move(s: StateView, key: KeyWithModifier)
    requires
        s.columns_right(key) is Some,
    ensures
        s.after_key(key) == Some(s.at_column(s.cur_col + s.columns_right(key)->0)),
        !s.yanks(key),
{
}

proof fn moving_within_the_grid(s: StateView, key: KeyWithModifier, row: int, col: int)
    requires
        s.mode != Mode::Search,
        !s.yanks(key),
        s.after_key(key) == Some(StateView { cur_row: row, cur_col: col, ..s }),
        0 <= row < s.grid.len(),
        0 <= col <= larger(s.line_len(row) - 1, 0),
    ensures
        ({
            let t = s.handle_key(key).state;
            t == (StateView { cur_row: row, cur_col: col, scroll: t.scroll, ..s })
        }),
{
    let next = StateView { cur_row: row, cur_col: col, ..s };
    assert(next.clamped() == next);
}

/// Two keys that move the cursor by as many rows in opposite directions come back to the
/// same cell, where the grid has the row between and that row reaches to the cursor's
/// column.
pub proof fn rows_there_and_back(s: StateView, there: KeyWithModifier, back: KeyWithModifier)
    requires
        s.valid(),
        s.mode != Mode::Search,
        s.cursor_in_grid(),
        s.rows_down(there) is Some,
        s.rows_down(back) == Some(-s.rows_down(there)->0),
        0 <= s.cur_row + s.rows_down(there)->0 < s.grid.len(),
        s.cur_col <= larger(s.line_len(s.cur_row + s.rows_down(there)->0) - 1, 0),
    ensures
        ({
            let t = s.handle_key(there).state.handle_key(back).state;
            t == (StateView { scroll: t.scroll, ..s })
        }),
{
    let n = s.rows_down(there)->0;
    row_keys_move(s, there);
    moving_within_the_grid(s, there, s.cur_row + n, s.cur_col);
    let t = s.handle_key(there).state;
    assert(t.rows_down(back) == Some(-n));
    row_keys_move(t, back);
    assert(t.down(-n) == (StateView { cur_row: s.cur_row, cur_col: s.cur_col, ..t }));
    moving_within_the_grid(t, back, s.cur_row, s.cur_col);
}

/// Two keys that move the cursor by as many columns in opposite directions come back to
/// the same cell, where the row has the column between.
pub proof fn columns_there_and_back(s: StateView, there: KeyWithModifier, back: KeyWithModifier)
    requires
        s.valid(),
        s.mode != Mode::Search,
        s.cursor_in_grid(),
        s.columns_right(there) is Some,
        s.columns_right(back) == Some(-s.columns_right(there)->0),
        0 <= s.cur_col + s.columns_right(there)->0 < s.line_len(s.cur_row),
    ensures
        ({
            let t = s.handle_key(there).state.handle_key(back).state;
            t == (StateView { scroll: t.scroll, ..s })
        }),
{
    let n = s.columns_right(there)->0;
    column_keys_move(s, there);
    moving_within_the_grid(s, there, s.cur_row, s.cur_col + n);
    let t = s.handle_key(there).state;
    assert(t.columns_right(back) == Some(-n));
    column_keys_move(t, back);
    assert(t.at_column(s.cur_col) == (StateView { cur_row: s.cur_row, cur_col: s.cur_col, ..t }));
    moving_within_the_grid(t, back, s.cur_row, s.cur_col);
}

/// A word forward never goes backwards in reading order, and a word back never forwards.
pub proof fn word_motions_have_a_direction(s: StateView)
    requires
        s.valid(),
        s.mode != Mode::Search,
        s.cursor_in_grid(),
    ensures
        ({
            let forward = s.handle_key(plain_key('w')).state;
            let back = s.handle_key(plain_key('b')).state;
            &&& reads_before((s.cur_row, s.cur_col), (forward.cur_row, forward.cur_col))
            &&& reads_before((back.cur_row, back.cur_col), (s.cur_row, s.cur_col))
        }),
{
    assert(s.after_key(plain_key('w')) == Some(s.word_forward()));
    assert(s.after_key(plain_key('b')) == Some(s.word_back()));
    run_bounds(s.cursor_line(), s.cur_col, false);
    run_bounds(s.cursor_line(), run_end(s.cursor_line(), s.cur_col, false), true);
    run_bounds(s.cursor_line(), s.cur_col, true);
    run_bounds(s.cursor_line(), run_start(s.cursor_line(), s.cur_col, true), false);
}

/// Backspace takes back a character typed into a query.
pub proof fn backspace_undoes_typing(s: StateView, c: char)
    requires
        s.mode == Mode::Search,
    ensures
        ({
            let backspace = KeyWithModifier { bare_key: BareKey::Backspace, ctrl: false };
            s.handle_key(plain_key(c)).state.handle_key(backspace).state == s.with_input(
                s.search_input,
            )
        }),
{
    assert(s.search_input.push(c).drop_last() =~= s.search_input);
}

/// A target that has been found is kept, whatever happens; permissions once granted
/// stay granted, and copy mode once entered stays entered. No event loads a grid.
pub proof fn events_keep_the_target(s: StateView, event: EventView)
    ensures
        ({
            let t = s.update(event).state;
            &&& s.target is Some ==> t.target == s.target && t.target_geom == s.target_geom
                && t.target_cursor == s.target_cursor
            &&& s.permissions_granted ==> t.permissions_granted
            &&& s.entered ==> t.entered
            &&& t.loaded == s.loaded
            &&& t.colored == s.colored
            &&& t.grid == s.grid
        }),
{
    match event {
        EventView::Key(key) => {
            keys_leave_the_rest(s, key);
        },
        _ => {},
    }
}

/// Copy mode is entered as soon as it may act and has a target, and once only: nothing
/// that happens later makes it read the scrollback or take the keys again. No event by
/// itself asks for a dump.
pub proof fn entered_once(s: StateView, event: EventView)
    ensures
        s.entered ==> !s.update(event).state.may_enter(),
        s.entered ==> forall|pane: PaneId|
            !s.update(event).commands.contains(CommandView::ReadScrollback(pane)),
        s.entered ==> !s.update(event).commands.contains(CommandView::InterceptKeys),
        forall|path: Seq<char>, pane: PaneId|
            !s.update(event).commands.contains(CommandView::DumpScreen { path, pane }),
        event is PermissionGranted || event is PaneUpdate ==> !s.update(event).state.may_enter(),
        !s.entered && s.update(event).state.entered ==> ({
            let asked = s.update(event).commands;
            &&& asked.len() >= 2
            &&& asked[asked.len() - 2] == CommandView::InterceptKeys
            &&& asked.last() == CommandView::ReadScrollback(s.update(event).state.target->0)
        }),
{
    events_keep_the_target(s, event);
    match event {
        EventView::Key(key) => {
            keys_leave_the_rest(s, key);
        },
        _ => {},
    }
}

/// A look for a dump that has not come asks for the file once, changes nothing but the
/// number of looks, and leads to another look as long as there is one left.
pub proof fn a_look_in_vain(s: StateView, event: EventView)
    requires
        s.awaits_dump(),
        0 <= s.dump_attempts < u32::MAX,
        event is Timer || event is ActionComplete,
    ensures
        ({
            let t = s.update(event).state;
            &&& s.update(event).commands == s.poll_commands()
            &&& s.poll_commands().len() == 1
            &&& t == (StateView { dump_attempts: s.dump_attempts + 1, ..s })
            &&& t.dump_shown(seq![]) == t
            &&& t.dump_attempts < MAX_DUMP_ATTEMPTS ==> t.after_look(seq![]) == seq![
                CommandView::SetTimeout,
            ]
            &&& t.dump_attempts >= MAX_DUMP_ATTEMPTS ==> t.after_look(seq![]).len() == 0
        }),
{
}

impl StateView {
    /// The state after as many looks in vain as there are events.
    pub open spec fn looked(self, events: Seq<EventView>) -> StateView
        decreases events.len(),
    {
        if events.len() == 0 {
            self
        } else {
            self.looked(events.drop_last()).update(events.last()).state.dump_shown(seq![])
        }
    }

    /// What is asked of the host once the looks have found nothing, all together.
    pub open spec fn asked_after(self, events: Seq<EventView>) -> Seq<CommandView>
        decreases events.len(),
    {
        if events.len() == 0 {
            seq![]
        } else {
            self.asked_after(events.drop_last()) + self.looked(events).after_look(seq![])
        }
    }
}

/// As long as the dump does not come, each of the first looks asks for another one, and
/// from the fortieth look on none does: thirty-nine reports are asked for, however many
/// come.
pub proof fn polling_gives_up(s: StateView, events: Seq<EventView>)
    requires
        s.awaits_dump(),
        s.dump_attempts == 0,
        events.len() <= u32::MAX,
        forall|i: int|
            0 <= i < events.len() ==> (#[trigger] events[i] is Timer
                || events[i] is ActionComplete),
    ensures
        s.looked(events) == (StateView { dump_attempts: events.len() as int, ..s }),
        s.asked_after(events) == Seq::new(
            smaller(events.len() as int, MAX_DUMP_ATTEMPTS - 1) as nat,
            |i: int| CommandView::SetTimeout,
        ),
    decreases events.len(),
{
    if events.len() > 0 {
        let before = events.drop_last();
        assert forall|i: int| 0 <= i < before.len() implies (#[trigger] before[i] is Timer
            || before[i] is ActionComplete) by {
            assert(before[i] == events[i]);
        }
        polling_gives_up(s, before);
        assert(events[events.len() - 1] == events.last());
        a_look_in_vain(s.looked(before), events.last());
    }
    assert(s.asked_after(events) =~= Seq::new(
        smaller(events.len() as int, MAX_DUMP_ATTEMPTS - 1) as nat,
        |i: int| CommandView::SetTimeout,
    ));
}

/// Once the colored grid is there, a report from the host changes nothing and asks for
/// nothing.
pub proof fn colored_is_final(s: StateView, event: EventView)
    requires
        s.colored,
        event is Timer || event is ActionComplete,
    ensures
        s.update(event).state == s,
        s.update(event).redraw == Redraw::No,
        s.update(event).commands.len() == 0,
{
}

/// The colored grid takes the place of the plain one under the cursor: the view stays,
/// and so does the cursor where the new grid has a cell for it.
pub proof fn dump_keeps_the_place(s: StateView, parsed: Seq<Seq<Cell>>)
    requires
        s.valid(),
        parsed.len() > 0,
    ensures
        s.dump_shown(parsed).scroll == s.scroll,
        s.dump_shown(parsed).grid == parsed,
        s.dump_shown(parsed).colored,
        s.dump_shown(parsed).cursor_in_grid(),
        (StateView { grid: parsed, ..s }).cursor_in_grid() ==> s.dump_shown(parsed) == (StateView {
            grid: parsed,
            colored: true,
            ..s
        }),
{
    clamping_is_sound(StateView { grid: parsed, colored: true, ..s });
}

proof fn filter_keeps_some(panes: Seq<PaneInfo>, keep: spec_fn(PaneInfo) -> bool)
    ensures
        forall|i: int|
            0 <= i < panes.filter(keep).len() ==> keep(#[trigger] panes.filter(keep)[i])
                && panes.contains(panes.filter(keep)[i]),
    decreases panes.len(),
{
    reveal(Seq::filter);
    if panes.len() > 0 {
        let front = panes.drop_last();
        filter_keeps_some(front, keep);
        assert forall|i: int| 0 <= i < panes.filter(keep).len() implies keep(
            #[trigger] panes.filter(keep)[i],
        ) && panes.contains(panes.filter(keep)[i]) by {
            if i < front.filter(keep).len() {
                let p = front.filter(keep)[i];
                assert(panes.filter(keep)[i] == p);
                assert(front.contains(p));
                let j = choose|j: int| 0 <= j < front.len() && front[j] == p;
                assert(panes[j] == p);
            } else {
                assert(panes.filter(keep)[i] == panes[panes.len() - 1]);
            }
        }
    }
}

proof fn candidates_come_from_the_tab(tabs: Seq<TabView>, own: Option<usize>)
    ensures
        forall|i: int|
            0 <= i < candidates(tabs, own).len() ==> is_candidate(
                #[trigger] candidates(tabs, own)[i],
            ) && exists|k: int|
                0 <= k < tabs.len() && own == Some((#[trigger] tabs[k]).position)
                    && tabs[k].panes.contains(candidates(tabs, own)[i]),
    decreases tabs.len(),
{
    if tabs.len() > 0 {
        let front = tabs.drop_last();
        let last = tabs.last();
        candidates_come_from_the_tab(front, own);
        let all = candidates(tabs, own);
        let old_ones = candidates(front, own);
        let new_ones = tab_candidates(last, own);
        assert forall|i: int| 0 <= i < all.len() implies is_candidate(#[trigger] all[i])
            && exists|k: int|
            0 <= k < tabs.len() && own == Some((#[trigger] tabs[k]).position)
                && tabs[k].panes.contains(all[i]) by {
            if i < old_ones.len() {
                assert(all[i] == old_ones[i]);
                let k = choose|k: int|
                    0 <= k < front.len() && own == Some((#[trigger] front[k]).position)
                        && front[k].panes.contains(old_ones[i]);
                assert(tabs[k] == front[k]);
            } else {
                let j = i - old_ones.len();
                assert(all[i] == new_ones[j]);
                let keep = |p: PaneInfo| is_candidate(p);
                assert(new_ones == last.panes.filter(keep));
                filter_keeps_some(last.panes, keep);
                assert(keep(new_ones[j]) && last.panes.contains(new_ones[j]));
                assert(tabs[tabs.len() - 1] == last);
            }
        }
    }
}

/// A target that an update of the panes gives copy mode is a terminal that is focused,
/// tiled and shown, in the tab in which our own pane is.
pub proof fn target_is_focused_in_our_tab(s: StateView, tabs: Seq<TabView>)
    requires
        s.target is None,
        s.panes_seen(tabs).target is Some,
    ensures
        exists|k: int, i: int|
            0 <= k < tabs.len() && 0 <= i < tabs[k].panes.len() && own_tab(tabs, s.self_id) == Some(
                tabs[k].position,
            ) && is_candidate(#[trigger] tabs[k].panes[i]) && s.panes_seen(tabs).target == Some(
                PaneId::Terminal(tabs[k].panes[i].id),
            ),
{
    let own = own_tab(tabs, s.self_id);
    let seen = candidates(tabs, own);
    candidates_come_from_the_tab(tabs, own);
    assert(is_candidate(seen[0]));
    let k = choose|k: int|
        0 <= k < tabs.len() && own == Some((#[trigger] tabs[k]).position) && tabs[k].panes.contains(
            seen[0],
        );
    let i = choose|i: int| 0 <= i < tabs[k].panes.len() && tabs[k].panes[i] == seen[0];
    assert(is_candidate(tabs[k].panes[i]));
}

proof fn own_tab_is(tabs: Seq<TabView>, own: Option<PaneId>, k: int)
    requires
        0 <= k < tabs.len(),
        holds_own(tabs[k], own),
        forall|j: int| 0 <= j < k ==> !holds_own(#[trigger] tabs[j], own),
    ensures
        own_tab(tabs, own) == Some(tabs[k].position),
    decreases k,
{
    if k > 0 {
        assert(!holds_own(tabs[0], own));
        assert(tabs.skip(1)[k - 1] == tabs[k]);
        assert forall|j: int| 0 <= j < k - 1 implies !holds_own(
            #[trigger] tabs.skip(1)[j],
            own,
        ) by {
            assert(tabs.skip(1)[j] == tabs[j + 1]);
        }
        own_tab_is(tabs.skip(1), own, k - 1);
    }
}

proof fn candidates_of_one_tab(tabs: Seq<TabView>, k: int, n: int)
    requires
        0 <= k < tabs.len(),
        0 <= n <= tabs.len(),
        forall|j: int| 0 <= j < tabs.len() && j != k ==> (#[trigger] tabs[j]).position
            != tabs[k].position,
    ensures
        candidates(tabs.take(n), Some(tabs[k].position)) == if k < n {
            tabs[k].panes.filter(|p: PaneInfo| is_candidate(p))
        } else {
            seq![]
        },
    decreases n,
{
    let own = Some(tabs[k].position);
    if n > 0 {
        candidates_of_one_tab(tabs, k, n - 1);
        assert(tabs.take(n).drop_last() =~= tabs.take(n - 1));
        assert(tabs.take(n).last() == tabs[n - 1]);
        if n - 1 == k {
            assert(candidates(tabs.take(n), own) =~= tabs[k].panes.filter(
                |p: PaneInfo| is_candidate(p),
            ));
        } else {
            assert(tabs[n - 1].position != tabs[k].position);
            assert(candidates(tabs.take(n), own) =~= candidates(tabs.take(n - 1), own));
        }
    }
}

/// Where one tab alone holds our own pane, and no other has its position, the candidates
/// are those of that tab, in whatever order the tabs are listed.
pub proof fn order_of_tabs_does_not_matter(s: StateView, tabs: Seq<TabView>, k: int)
    requires
        0 <= k < tabs.len(),
        holds_own(tabs[k], s.self_id),
        forall|j: int| 0 <= j < tabs.len() && j != k ==> !holds_own(#[trigger] tabs[j], s.self_id),
        forall|j: int| 0 <= j < tabs.len() && j != k ==> (#[trigger] tabs[j]).position
            != tabs[k].position,
    ensures
        s.own_candidates(tabs) == tabs[k].panes.filter(|p: PaneInfo| is_candidate(p)),
{
    own_tab_is(tabs, s.self_id, k);
    candidates_of_one_tab(tabs, k, tabs.len() as int);
    assert(tabs.take(tabs.len() as int) =~= tabs);
}

} // verus!
