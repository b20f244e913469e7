//! What copy mode makes of the host's reports, and what it asks of the host.
use vstd::prelude::*;
use vstd::utf8::encode_utf8;

use crate::command::CommandView;
use crate::dump::{build, Cell};
use crate::events::{EventView, Redraw};
use crate::keys::{BareKey, KeyWithModifier};
use crate::laws::order_of_tabs_does_not_matter;
use crate::motion_laws::{last_column, view_follows};
use crate::panes::{
    candidates, holds_own, is_candidate, is_own, own_tab, summary, PaneInfo, TabView,
};
use crate::plugin::{found, sandbox_path, PaneContentsView, MAX_DUMP_ATTEMPTS, POLL_DELAY_MS};
use crate::state::{initial_state, Mode, PaneId, StateView};
use crate::text::decimal;
use crate::vt::parser_actions;

verus! {

/// Before anything has happened copy mode may not act, has no pane, no target and no
/// grid, and nothing is selected, searched for or reported.
pub proof fn nothing_has_happened_yet()
    ensures
        ({
            let s = initial_state();
            &&& !s.permissions_granted && !s.entered && !s.loaded && !s.colored
            &&& !s.needs_initial_scroll
            &&& s.self_id is None && s.target is None && s.last_focused_terminal is None
            &&& s.target_geom is None && s.target_cursor is None
            &&& s.grid.len() == 0 && s.scroll == 0 && s.cur_row == 0 && s.cur_col == 0
            &&& s.rows == 0 && s.cols == 0 && s.viewport_start == 0 && s.dump_attempts == 0
            &&& s.mode == Mode::Normal && s.anchor is None
            &&& s.search_input.len() == 0 && s.last_query.len() == 0 && s.status.len() == 0
            &&& s.host_cwd.len() == 0 && s.dbg_panes.len() == 0
        }),
{
}

/// The command that puts our pane over the target: at its place, in its size.
pub open spec fn covers_target(s: StateView, command: CommandView) -> bool {
    match command {
        CommandView::Cover { plugin, x, y, cols, rows } => s.self_id == Some(
            PaneId::Plugin(plugin),
        ) && s.target_geom == Some((x, y, cols, rows)),
        _ => false,
    }
}

/// Whether our own pane and the place of the target are known.
pub open spec fn knows_both_panes(s: StateView) -> bool {
    s.self_id is Some && s.self_id->0 is Plugin && s.target_geom is Some
}

/// Whether these are the requests by which copy mode is entered in state `s`: to put our
/// pane over the target, where both are known, to get the keys, and to read the
/// scrollback of the target.
pub open spec fn enters_by(s: StateView, asked: Seq<CommandView>) -> bool {
    if knows_both_panes(s) {
        &&& asked.len() == 3
        &&& covers_target(s, asked[0])
        &&& asked[1] == CommandView::InterceptKeys
        &&& asked[2] == CommandView::ReadScrollback(s.target->0)
    } else {
        &&& asked.len() == 2
        &&& asked[0] == CommandView::InterceptKeys
        &&& asked[1] == CommandView::ReadScrollback(s.target->0)
    }
}

/// Granted permissions are noted; where a target is known, copy mode is entered, unless
/// it has been entered before. Denied ones are reported, and nothing is asked for.
pub proof fn permissions_open_copy_mode(s: StateView)
    ensures
        ({
            let e = s.update(EventView::PermissionGranted);
            let enters = s.target is Some && !s.entered;
            &&& e.redraw == Redraw::Yes
            &&& e.state == (StateView {
                permissions_granted: true,
                entered: s.entered || s.target is Some,
                ..s
            })
            &&& enters ==> enters_by(s, e.commands)
            &&& !enters ==> e.commands.len() == 0
        }),
        ({
            let e = s.update(EventView::PermissionDenied);
            &&& e.redraw == Redraw::Yes
            &&& e.state == (StateView { status: "permissions denied"@, ..s })
            &&& e.commands.len() == 0
        }),
{
}

/// While the colored dump is awaited, every report from the host leads to a look for it:
/// the file is asked for and the look counted. Otherwise such a report is ignored.
pub proof fn reports_lead_to_a_look(s: StateView, event: EventView)
    requires
        event is Timer || event is ActionComplete,
        0 <= s.dump_attempts < u32::MAX,
    ensures
        ({
            let e = s.update(event);
            let waiting = s.entered && !s.colored;
            &&& waiting ==> e.redraw == Redraw::Yes && e.commands == seq![
                CommandView::ReadDump { path: sandbox_path() },
            ] && e.state == (StateView { dump_attempts: s.dump_attempts + 1, ..s })
            &&& !waiting ==> e.redraw == Redraw::No && e.commands.len() == 0 && e.state == s
        }),
{
}

/// Once there is a grid, keys are for it, and a key that means something calls for a
/// paint. Before, `q` and Escape leave copy mode and other keys are ignored.
pub proof fn keys_are_for_the_grid(s: StateView, key: KeyWithModifier)
    ensures
        ({
            let e = s.update(EventView::Key(key));
            let k = s.handle_key(key);
            let dismisses = key.bare_key == BareKey::Char('q') || key.bare_key == BareKey::Esc;
            &&& s.loaded ==> e.state == k.state && e.commands == k.commands && (e.redraw
                == Redraw::Yes <==> k.handled) && (e.redraw == Redraw::No <==> !k.handled)
            &&& !s.loaded ==> e.state == s && e.redraw == Redraw::No
            &&& !s.loaded && dismisses ==> e.commands == seq![
                CommandView::ClearKeyIntercepts,
                CommandView::CloseSelf,
            ]
            &&& !s.loaded && !dismisses ==> e.commands.len() == 0
        }),
        s.update(EventView::Other).state == s,
        s.update(EventView::Other).commands.len() == 0,
        s.update(EventView::Other).redraw == Redraw::No,
{
}

/// Whether the pane is a terminal that has the focus, among the tiled panes, and is
/// shown.
pub open spec fn may_be_target(pane: PaneInfo) -> bool {
    &&& pane.is_focused
    &&& !pane.is_plugin
    &&& !pane.is_suppressed
    &&& !pane.is_floating
}

/// Whether the tab holds our own pane.
pub open spec fn is_our_tab(s: StateView, tab: TabView) -> bool {
    exists|i: int|
        0 <= i < tab.panes.len() && (#[trigger] tab.panes[i]).is_plugin && s.self_id == Some(
            PaneId::Plugin(tab.panes[i].id),
        )
}

/// Whether tab `k` alone holds our own pane, and no other tab has its position.
pub open spec fn only_ours(s: StateView, tabs: Seq<TabView>, k: int) -> bool {
    &&& 0 <= k < tabs.len()
    &&& is_our_tab(s, tabs[k])
    &&& forall|j: int|
        0 <= j < tabs.len() && j != k ==> !is_our_tab(s, #[trigger] tabs[j]) && tabs[j].position
            != tabs[k].position
}

proof fn our_tab_holds_own(s: StateView, tab: TabView)
    ensures
        is_our_tab(s, tab) == holds_own(tab, s.self_id),
{
    if is_our_tab(s, tab) {
        let i = choose|i: int|
            0 <= i < tab.panes.len() && (#[trigger] tab.panes[i]).is_plugin && s.self_id == Some(
                PaneId::Plugin(tab.panes[i].id),
            );
        assert(is_own(tab.panes[i], s.self_id));
    }
    if holds_own(tab, s.self_id) {
        let i = choose|i: int|
            0 <= i < tab.panes.len() && is_own(#[trigger] tab.panes[i], s.self_id);
        assert(tab.panes[i].is_plugin);
    }
}

proof fn first_and_last_kept(panes: Seq<PaneInfo>, first: int, last: int)
    requires
        0 <= first <= last < panes.len(),
        may_be_target(panes[first]),
        may_be_target(panes[last]),
        forall|i: int| 0 <= i < first ==> !may_be_target(#[trigger] panes[i]),
        forall|i: int| last < i < panes.len() ==> !may_be_target(#[trigger] panes[i]),
    ensures
        ({
            let kept = panes.filter(|p: PaneInfo| is_candidate(p));
            kept.len() > 0 && kept[0] == panes[first] && kept.last() == panes[last]
        }),
    decreases panes.len(),
{
    reveal(Seq::filter);
    let keep = |p: PaneInfo| is_candidate(p);
    let front = panes.drop_last();
    let end = panes.len() - 1;
    assert(is_candidate(panes[end]) == may_be_target(panes[end]));
    if last == end {
        if first == end {
            none_kept(front);
        } else {
            // The last one before the end that is kept ends the front part.
            let before = last_kept(front, first);
            first_and_last_kept(front, first, before);
        }
    } else {
        assert(!may_be_target(panes[end]));
        first_and_last_kept(front, first, last);
    }
}

proof fn none_kept(panes: Seq<PaneInfo>)
    requires
        forall|i: int| 0 <= i < panes.len() ==> !may_be_target(#[trigger] panes[i]),
    ensures
        panes.filter(|p: PaneInfo| is_candidate(p)).len() == 0,
    decreases panes.len(),
{
    reveal(Seq::filter);
    if panes.len() > 0 {
        assert(!may_be_target(panes[panes.len() - 1]));
        none_kept(panes.drop_last());
    }
}

proof fn last_kept(panes: Seq<PaneInfo>, first: int) -> (last: int)
    requires
        0 <= first < panes.len(),
        may_be_target(panes[first]),
    ensures
        first <= last < panes.len(),
        may_be_target(panes[last]),
        forall|i: int| last < i < panes.len() ==> !may_be_target(#[trigger] panes[i]),
    decreases panes.len(),
{
    let end = panes.len() - 1;
    if may_be_target(panes[end]) {
        end
    } else {
        let last = last_kept(panes.drop_last(), first);
        assert forall|i: int| last < i < panes.len() implies !may_be_target(
            #[trigger] panes[i],
        ) by {
            if i < end {
                assert(panes.drop_last()[i] == panes[i]);
            }
        }
        last
    }
}

proof fn candidates_of_our_tab(s: StateView, tabs: Seq<TabView>, k: int)
    requires
        only_ours(s, tabs, k),
    ensures
        s.own_candidates(tabs) == tabs[k].panes.filter(|p: PaneInfo| is_candidate(p)),
{
    our_tab_holds_own(s, tabs[k]);
    assert forall|j: int| 0 <= j < tabs.len() && j != k implies !holds_own(
        #[trigger] tabs[j],
        s.self_id,
    ) by {
        our_tab_holds_own(s, tabs[j]);
    }
    order_of_tabs_does_not_matter(s, tabs, k);
}

/// The first pane of our own tab that may be the target becomes it, where there is none:
/// with its number, its place and size, and its cursor. The last such pane is noted as
/// the terminal that was focused last. Our pane is put over a target that was just found;
/// and copy mode is entered where it may act and has not been entered before.
pub proof fn the_focused_terminal_becomes_the_target(
    s: StateView,
    tabs: Seq<TabView>,
    k: int,
    first: int,
    last: int,
)
    requires
        only_ours(s, tabs, k),
        0 <= first <= last < tabs[k].panes.len(),
        may_be_target(tabs[k].panes[first]),
        may_be_target(tabs[k].panes[last]),
        forall|i: int| 0 <= i < first ==> !may_be_target(#[trigger] tabs[k].panes[i]),
        forall|i: int|
            last < i < tabs[k].panes.len() ==> !may_be_target(#[trigger] tabs[k].panes[i]),
    ensures
        ({
            let e = s.update(EventView::PaneUpdate(tabs));
            let t = e.state;
            let p = tabs[k].panes[first];
            let enters = s.permissions_granted && !s.entered;
            &&& e.redraw == Redraw::UnlessLoaded
            &&& t.last_focused_terminal == Some(PaneId::Terminal(tabs[k].panes[last].id))
            &&& t.entered == (s.entered || s.permissions_granted)
            &&& s.target is None ==> t.target == Some(PaneId::Terminal(p.id)) && t.target_geom
                == Some((p.pane_x, p.pane_y, p.pane_columns, p.pane_rows)) && t.target_cursor
                == p.cursor_coordinates_in_pane
            &&& s.target is Some ==> t.target == s.target && t.target_geom == s.target_geom
                && t.target_cursor == s.target_cursor
            &&& s.target is None && !enters && knows_both_panes(t) ==> e.commands.len() == 1
                && covers_target(t, e.commands[0])
            &&& s.target is None && enters && knows_both_panes(t) ==> e.commands.len() == 4
                && covers_target(t, e.commands[0]) && enters_by(t, e.commands.skip(1))
            &&& s.target is Some && enters ==> enters_by(t, e.commands)
            &&& s.target is Some && !enters ==> e.commands.len() == 0
            &&& t == (StateView {
                last_focused_terminal: t.last_focused_terminal,
                target: t.target,
                target_geom: t.target_geom,
                target_cursor: t.target_cursor,
                entered: t.entered,
                dbg_panes: t.dbg_panes,
                ..s
            })
        }),
{
    candidates_of_our_tab(s, tabs, k);
    first_and_last_kept(tabs[k].panes, first, last);
}

/// Where no pane of our own tab may be the target, or no tab holds our own pane, an
/// update of the panes finds none: only the diagnosis changes, and copy mode is entered
/// where it has a target already, may act and has not been entered before.
pub proof fn no_terminal_is_focused(s: StateView, tabs: Seq<TabView>, k: int)
    requires
        only_ours(s, tabs, k) && (forall|i: int|
            0 <= i < tabs[k].panes.len() ==> !may_be_target(#[trigger] tabs[k].panes[i])) || (
        forall|j: int| 0 <= j < tabs.len() ==> !is_our_tab(s, #[trigger] tabs[j])),
    ensures
        ({
            let e = s.update(EventView::PaneUpdate(tabs));
            let enters = s.permissions_granted && s.target is Some && !s.entered;
            &&& e.redraw == Redraw::UnlessLoaded
            &&& e.state == (StateView {
                entered: s.entered || enters,
                dbg_panes: e.state.dbg_panes,
                ..s
            })
            &&& enters ==> enters_by(s, e.commands)
            &&& !enters ==> e.commands.len() == 0
        }),
{
    if only_ours(s, tabs, k) {
        candidates_of_our_tab(s, tabs, k);
        none_kept(tabs[k].panes);
    } else {
        no_own_tab(s, tabs);
        no_candidates(tabs);
    }
}

proof fn no_own_tab(s: StateView, tabs: Seq<TabView>)
    requires
        forall|j: int| 0 <= j < tabs.len() ==> !is_our_tab(s, #[trigger] tabs[j]),
    ensures
        own_tab(tabs, s.self_id) is None,
    decreases tabs.len(),
{
    if tabs.len() > 0 {
        our_tab_holds_own(s, tabs[0]);
        assert(!is_our_tab(s, tabs[0]));
        assert forall|j: int| 0 <= j < tabs.skip(1).len() implies !is_our_tab(
            s,
            #[trigger] tabs.skip(1)[j],
        ) by {
            assert(tabs.skip(1)[j] == tabs[j + 1]);
        }
        no_own_tab(s, tabs.skip(1));
    }
}

proof fn no_candidates(tabs: Seq<TabView>)
    ensures
        candidates(tabs, None).len() == 0,
    decreases tabs.len(),
{
    if tabs.len() > 0 {
        no_candidates(tabs.drop_last());
    }
}

/// The diagnosis lists the panes tab by tab: the tab's position, whether it is a plugin
/// or a terminal, its number, and whether it is focused, suppressed or floating. An
/// update of the panes takes it over.
pub proof fn the_diagnosis_lists_the_panes(
    s: StateView,
    tabs: Seq<TabView>,
    position: usize,
    panes: Seq<PaneInfo>,
    pane: PaneInfo,
)
    ensures
        s.update(EventView::PaneUpdate(tabs)).state.dbg_panes == summary(tabs),
        summary(Seq::empty()).len() == 0,
        summary(tabs.push(TabView { position, panes: Seq::empty() })) == summary(tabs),
        ({
            let kind = if pane.is_plugin {
                'P'
            } else {
                'T'
            };
            let focused: Seq<char> = if pane.is_focused {
                seq!['F']
            } else {
                seq![]
            };
            let suppressed: Seq<char> = if pane.is_suppressed {
                seq!['S']
            } else {
                seq![]
            };
            let floating: Seq<char> = if pane.is_floating {
                seq!['f']
            } else {
                seq![]
            };
            summary(tabs.push(TabView { position, panes: panes.push(pane) })) == summary(
                tabs.push(TabView { position, panes }),
            ) + (seq!['t'] + decimal(position as nat) + seq![':', kind] + decimal(pane.id as nat)
                + seq!['['] + (focused + suppressed + floating) + seq![']', ' '])
        }),
{
    let none = TabView { position, panes: Seq::empty() };
    let short = TabView { position, panes };
    let long = TabView { position, panes: panes.push(pane) };
    assert(tabs.push(none).drop_last() =~= tabs);
    assert(tabs.push(short).drop_last() =~= tabs);
    assert(tabs.push(long).drop_last() =~= tabs);
    assert(panes.push(pane).drop_last() =~= panes);
    assert(summary(tabs.push(none)) =~= summary(tabs));
    let last = crate::panes::pane_summary(position, pane);
    let front = crate::panes::tab_summary(position, panes);
    assert(summary(tabs.push(long)) =~= summary(tabs) + front + last);
    assert(summary(tabs.push(short)) =~= summary(tabs) + front);
}

/// Whether the cursor is at a place of the grid, or at the nearest one where the grid
/// does not reach that far.
pub open spec fn nearest_cell(t: StateView, row: int, col: int) -> bool {
    let r = if row < t.grid.len() {
        row
    } else {
        t.grid.len() - 1
    };
    &&& t.cur_row == r
    &&& t.cur_col == if col <= last_column(t.grid[r]) {
        col
    } else {
        last_column(t.grid[r])
    }
}

/// The scrollback is shown as soon as it is there: the grid is the parsed text, or one
/// empty row; the cursor is where the pane's own cursor is, below the lines above the
/// viewport, or at the start of the last row where that is not known; and the next paint
/// has to find the view.
pub proof fn the_scrollback_is_shown(
    s: StateView,
    contents: PaneContentsView,
    parsed: Seq<Seq<Cell>>,
)
    requires
        contents.above.len() <= usize::MAX,
        0 <= s.scroll,
        0 <= s.rows,
    ensures
        ({
            let t = s.scrollback_shown(contents, parsed);
            let start = contents.above.len() as int;
            &&& t.loaded && t.needs_initial_scroll
            &&& t.viewport_start == start
            &&& parsed.len() > 0 ==> t.grid == parsed
            &&& parsed.len() == 0 ==> t.grid.len() == 1 && t.grid[0].len() == 0
            &&& t.status == "COPY ("@ + decimal(t.grid.len()) + " lines, "@ + decimal(
                encode_utf8(contents.text()).len(),
            ) + " bytes)"@
            &&& match s.target_cursor {
                Some((x, y)) => start + y <= usize::MAX ==> nearest_cell(t, start + y, x as int),
                None => t.cur_row == t.grid.len() - 1 && t.cur_col == 0,
            }
            &&& view_follows(s, StateView { cur_row: t.grid.len() - 1, ..t })
            &&& t == (StateView {
                loaded: true,
                needs_initial_scroll: true,
                viewport_start: start,
                grid: t.grid,
                cur_row: t.cur_row,
                cur_col: t.cur_col,
                scroll: t.scroll,
                status: t.status,
                ..s
            })
        }),
{
}

/// A dump that is taken in directly is shown with the cursor at the start of its last
/// row, and that row in view.
pub proof fn a_dump_is_taken_in(s: StateView, parsed: Seq<Seq<Cell>>, size: nat)
    requires
        0 <= s.scroll,
        0 <= s.rows,
    ensures
        ({
            let t = s.ingested(parsed, size as int);
            &&& t.loaded
            &&& parsed.len() > 0 ==> t.grid == parsed
            &&& parsed.len() == 0 ==> t.grid.len() == 1 && t.grid[0].len() == 0
            &&& t.cur_row == t.grid.len() - 1 && t.cur_col == 0
            &&& view_follows(s, t)
            &&& t.status == "COPY ("@ + decimal(t.grid.len()) + " lines, "@ + decimal(size)
                + " bytes)"@
            &&& t == (StateView {
                loaded: true,
                grid: t.grid,
                cur_row: t.cur_row,
                cur_col: 0,
                scroll: t.scroll,
                status: t.status,
                ..s
            })
        }),
{
}

/// The colored grid takes the place of the other one: the view and the cursor stay, or
/// the cursor goes to the nearest cell where the new grid is smaller. A dump without rows
/// changes nothing.
pub proof fn the_colored_grid_is_shown(s: StateView, parsed: Seq<Seq<Cell>>)
    requires
        0 <= s.cur_row,
        0 <= s.cur_col,
    ensures
        parsed.len() == 0 ==> s.dump_shown(parsed) == s,
        parsed.len() > 0 ==> ({
            let t = s.dump_shown(parsed);
            &&& t.grid == parsed && t.colored
            &&& nearest_cell(t, s.cur_row, s.cur_col)
            &&& t == (StateView {
                grid: parsed,
                colored: true,
                cur_row: t.cur_row,
                cur_col: t.cur_col,
                ..s
            })
        }),
{
}

/// The dump is written under the host's folder and read back from the place where that
/// folder is mounted: the two names differ in nothing but the folder. It is read and
/// deleted under the same name. Looks for it go on until there have been forty.
pub proof fn the_dump_is_found_where_it_was_written(s: StateView, parsed: Seq<Seq<Cell>>)
    requires
        s.target is Some,
    ensures
        ({
            let file = "/.zellij-copy-mode-dump.ansi"@;
            &&& s.dump_commands() == seq![
                CommandView::DumpScreen { path: s.host_cwd + file, pane: s.target->0 },
                CommandView::SetTimeout,
            ]
            &&& !s.colored ==> s.poll_commands() == seq![
                CommandView::ReadDump { path: "/host"@ + file },
            ]
            &&& s.colored ==> s.poll_commands().len() == 0
            &&& parsed.len() > 0 ==> s.after_look(parsed) == seq![
                CommandView::RemoveDump { path: "/host"@ + file },
            ]
            &&& parsed.len() == 0 && s.dump_attempts < 40 ==> s.after_look(parsed) == seq![
                CommandView::SetTimeout,
            ]
            &&& parsed.len() == 0 && s.dump_attempts >= 40 ==> s.after_look(parsed).len() == 0
        }),
{
    reveal_strlit("/.zellij-copy-mode-dump.ansi");
    reveal_strlit(".zellij-copy-mode-dump.ansi");
    reveal_strlit("/host");
    reveal_strlit("/host/");
    let file = "/.zellij-copy-mode-dump.ansi"@;
    assert(s.dump_host_path() =~= s.host_cwd + file);
    assert(sandbox_path() =~= "/host"@ + file);
}

/// Loading takes note of our own pane and of the host's folder, and leaves every mode.
pub proof fn loading_notes_our_pane(s: StateView, plugin_id: u32, cwd: Seq<char>)
    ensures
        ({
            let t = s.loading(plugin_id, cwd);
            &&& t.self_id == Some(PaneId::Plugin(plugin_id))
            &&& t.host_cwd == cwd
            &&& t.mode == Mode::Normal
            &&& t == (StateView {
                self_id: t.self_id,
                host_cwd: t.host_cwd,
                mode: t.mode,
                ..s
            })
        }),
{
}

/// With the scrollback, whether it could be read or not, the looks for the colored dump
/// start from the beginning. A scrollback that could not be read is reported, and nothing
/// is shown.
pub proof fn the_scrollback_starts_the_looks(
    s: StateView,
    contents: PaneContentsView,
    parsed: Seq<Seq<Cell>>,
    reason: Seq<char>,
)
    ensures
        ({
            let t = s.scrollback_taken(contents, parsed);
            let f = s.scrollback_failed(reason);
            &&& t.dump_attempts == 0
            &&& (StateView { dump_attempts: s.dump_attempts, ..t }) == s.scrollback_shown(
                contents,
                parsed,
            )
            &&& f.dump_attempts == 0
            &&& f.status == "scrollback err: "@ + reason
            &&& f == (StateView { dump_attempts: 0, status: f.status, ..s })
        }),
{
}

/// Copy mode is entered exactly where it may act, has a target and has not been entered
/// before; that is noted, and nothing else changes.
pub proof fn entering_is_noted(s: StateView)
    ensures
        ({
            let enters = s.permissions_granted && s.target is Some && !s.entered;
            &&& s.maybe_entered() == (StateView { entered: s.entered || enters, ..s })
            &&& enters ==> enters_by(s, s.maybe_enter_commands())
            &&& !enters ==> s.maybe_enter_commands().len() == 0
        }),
        s.target is Some ==> s.entering() == (StateView { entered: true, ..s }) && enters_by(
            s,
            s.enter_commands(),
        ),
        s.target is None ==> s.entering() == s && s.enter_commands().len() == 0,
{
}

/// A paint that waits for the scrollback is due only as long as there is none; the other
/// answers do not depend on the state.
pub proof fn paints_are_due(s: StateView)
    ensures
        s.paints(Redraw::Yes),
        !s.paints(Redraw::No),
        s.paints(Redraw::UnlessLoaded) <==> !s.loaded,
{
}

/// An empty file holds no grid; any other holds what the parser makes of it.
pub proof fn empty_files_hold_nothing(bytes: Seq<u8>)
    ensures
        bytes.len() == 0 ==> found(bytes).len() == 0,
        bytes.len() > 0 ==> found(bytes) == build(parser_actions(bytes)),
{
}

/// A look for the dump is counted as long as the colored grid is not there.
pub proof fn looks_are_counted(s: StateView)
    requires
        s.dump_attempts < u32::MAX,
    ensures
        s.polled() == if s.colored {
            s
        } else {
            StateView { dump_attempts: s.dump_attempts + 1, ..s }
        },
{
}

/// The dump is looked for every twentieth of a second, for two seconds.
pub proof fn polling_takes_two_seconds()
    ensures
        POLL_DELAY_MS * 20 == 1000,
        MAX_DUMP_ATTEMPTS * POLL_DELAY_MS == 2000,
{
}

} // verus!
