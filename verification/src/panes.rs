//! The panes of a session, and which of them copy mode is for.
use vstd::prelude::*;

use crate::command::{commands_view, push_command, Command, CommandView};
use crate::state::{PaneId, State, StateView};
use crate::text::{decimal, push_decimal};

verus! {

/// What copy mode needs to know of a pane.
#[derive(Clone, Copy)]
pub struct PaneInfo {
    pub id: u32,
    pub is_plugin: bool,
    pub is_focused: bool,
    pub is_suppressed: bool,
    pub is_floating: bool,
    /// The pane's cursor, where it is visible: x, y.
    pub cursor_coordinates_in_pane: Option<(usize, usize)>,
    pub pane_x: usize,
    pub pane_y: usize,
    pub pane_columns: usize,
    pub pane_rows: usize,
}

/// A tab: its position, and its panes.
pub struct Tab {
    pub position: usize,
    pub panes: Vec<PaneInfo>,
}

/// The model of a `Tab`.
pub struct TabView {
    pub position: usize,
    pub panes: Seq<PaneInfo>,
}

impl View for Tab {
    type V = TabView;

    open spec fn view(&self) -> TabView {
        TabView { position: self.position, panes: self.panes@ }
    }
}

/// The model of a list of tabs.
pub open spec fn tabs_view(tabs: Seq<Tab>) -> Seq<TabView> {
    tabs.map_values(|t: Tab| t@)
}

/// Whether the pane is the plugin pane `own`.
pub open spec fn is_own(pane: PaneInfo, own: Option<PaneId>) -> bool {
    pane.is_plugin && own == Some(PaneId::Plugin(pane.id))
}

/// Whether the tab holds the plugin pane `own`.
pub open spec fn holds_own(tab: TabView, own: Option<PaneId>) -> bool {
    exists|i: int| 0 <= i < tab.panes.len() && is_own(#[trigger] tab.panes[i], own)
}

/// The position of the first tab that holds the plugin pane `own`.
pub open spec fn own_tab(tabs: Seq<TabView>, own: Option<PaneId>) -> Option<usize>
    decreases tabs.len(),
{
    if tabs.len() == 0 {
        None
    } else if holds_own(tabs[0], own) {
        Some(tabs[0].position)
    } else {
        own_tab(tabs.skip(1), own)
    }
}

/// Whether the pane is a focused terminal that is tiled and shown.
pub open spec fn is_candidate(pane: PaneInfo) -> bool {
    pane.is_focused && !pane.is_plugin && !pane.is_suppressed && !pane.is_floating
}

/// The candidates among the panes of a tab, where the tab is `own`.
pub open spec fn tab_candidates(tab: TabView, own: Option<usize>) -> Seq<PaneInfo> {
    if own == Some(tab.position) {
        tab.panes.filter(|p: PaneInfo| is_candidate(p))
    } else {
        seq![]
    }
}

/// The candidates of the tabs at position `own`, in the order of the list.
pub open spec fn candidates(tabs: Seq<TabView>, own: Option<usize>) -> Seq<PaneInfo>
    decreases tabs.len(),
{
    if tabs.len() == 0 {
        seq![]
    } else {
        candidates(tabs.drop_last(), own) + tab_candidates(tabs.last(), own)
    }
}

/// The marks of a pane in the diagnosis: focused, suppressed, floating.
pub open spec fn pane_flags(pane: PaneInfo) -> Seq<char> {
    (if pane.is_focused {
        seq!['F']
    } else {
        seq![]
    }) + (if pane.is_suppressed {
        seq!['S']
    } else {
        seq![]
    }) + (if pane.is_floating {
        seq!['f']
    } else {
        seq![]
    })
}

/// A pane in the diagnosis: its tab, whether it is a plugin or a terminal, its number,
/// its marks.
pub open spec fn pane_summary(position: usize, pane: PaneInfo) -> Seq<char> {
    seq!['t'] + decimal(position as nat) + seq![
        ':',
        if pane.is_plugin {
            'P'
        } else {
            'T'
        },
    ] + decimal(pane.id as nat) + seq!['['] + pane_flags(pane) + seq![']', ' ']
}

/// The panes of a tab in the diagnosis.
pub open spec fn tab_summary(position: usize, panes: Seq<PaneInfo>) -> Seq<char>
    decreases panes.len(),
{
    if panes.len() == 0 {
        seq![]
    } else {
        tab_summary(position, panes.drop_last()) + pane_summary(position, panes.last())
    }
}

/// The panes of all tabs in the diagnosis.
pub open spec fn summary(tabs: Seq<TabView>) -> Seq<char>
    decreases tabs.len(),
{
    if tabs.len() == 0 {
        seq![]
    } else {
        summary(tabs.drop_last()) + tab_summary(tabs.last().position, tabs.last().panes)
    }
}

impl StateView {
    /// The command that makes our pane cover the target exactly, where both are known.
    pub open spec fn cover_commands(self) -> Seq<CommandView> {
        match (self.self_id, self.target_geom) {
            (Some(PaneId::Plugin(plugin)), Some((x, y, cols, rows))) => seq![
                CommandView::Cover { plugin, x, y, cols, rows },
            ],
            _ => seq![],
        }
    }

    /// The state after the candidates have been seen: the last of them is the terminal
    /// focused last, and the first one becomes the target where there was none.
    pub open spec fn noted(self, seen: Seq<PaneInfo>) -> StateView {
        if seen.len() == 0 {
            self
        } else {
            let last = Some(PaneId::Terminal(seen.last().id));
            let first = seen[0];
            if self.target is Some {
                StateView { last_focused_terminal: last, ..self }
            } else {
                StateView {
                    last_focused_terminal: last,
                    target: Some(PaneId::Terminal(first.id)),
                    target_cursor: first.cursor_coordinates_in_pane,
                    target_geom: Some(
                        (first.pane_x, first.pane_y, first.pane_columns, first.pane_rows),
                    ),
                    ..self
                }
            }
        }
    }

    /// What is asked of the host when the candidates have been seen: to cover a target
    /// that has just been found.
    pub open spec fn noted_commands(self, seen: Seq<PaneInfo>) -> Seq<CommandView> {
        if self.target is None && seen.len() > 0 {
            self.noted(seen).cover_commands()
        } else {
            seq![]
        }
    }

    /// The candidates in the tab that holds our own pane.
    pub open spec fn own_candidates(self, tabs: Seq<TabView>) -> Seq<PaneInfo> {
        candidates(tabs, own_tab(tabs, self.self_id))
    }

    /// The state after an update of the panes.
    pub open spec fn panes_seen(self, tabs: Seq<TabView>) -> StateView {
        StateView { dbg_panes: summary(tabs), ..self.noted(self.own_candidates(tabs)) }
    }
}

/// The position of the first tab that holds the plugin pane `own`.
pub fn find_own_tab(tabs: &Vec<Tab>, own: Option<PaneId>) -> (r: Option<usize>)
    ensures
        r == own_tab(tabs_view(tabs@), own),
{
    let mut i: usize = 0;
    let ghost views = tabs_view(tabs@);
    assert(views.skip(0) =~= views);
    while i < tabs.len()
        invariant
            i <= tabs.len(),
            views == tabs_view(tabs@),
            own_tab(views, own) == own_tab(views.skip(i as int), own),
        decreases tabs.len() - i,
    {
        let panes = &tabs[i].panes;
        assert(views[i as int].panes == panes@);
        assert(views.skip(i as int)[0] == views[i as int]);
        let mut j: usize = 0;
        while j < panes.len()
            invariant
                j <= panes.len(),
                i < tabs.len(),
                views == tabs_view(tabs@),
                views[i as int].panes == panes@,
                views.skip(i as int)[0] == views[i as int],
                views.skip(i as int).len() > 0,
                own_tab(views, own) == own_tab(views.skip(i as int), own),
                forall|k: int| 0 <= k < j ==> !is_own(#[trigger] panes@[k], own),
            decreases panes.len() - j,
        {
            let pane: PaneInfo = panes[j];
            if pane.is_plugin {
                match own {
                    Some(PaneId::Plugin(id)) => {
                        if id == pane.id {
                            assert(is_own(views[i as int].panes[j as int], own));
                            return Some(tabs[i].position);
                        }
                    },
                    _ => {},
                }
            }
            j = j + 1;
        }
        assert(!holds_own(views[i as int], own));
        assert(views.skip(i as int).skip(1) =~= views.skip(i + 1));
        i = i + 1;
    }
    assert(views.skip(tabs.len() as int) =~= seq![]);
    None
}

/// Appends the marks of a pane.
fn push_flags(out: &mut String, pane: PaneInfo)
    ensures
        final(out)@ == old(out)@ + pane_flags(pane),
{
    if pane.is_focused {
        out.push('F');
    }
    if pane.is_suppressed {
        out.push('S');
    }
    if pane.is_floating {
        out.push('f');
    }
    assert(out@ =~= old(out)@ + pane_flags(pane));
}

/// Appends a pane to the diagnosis.
fn push_summary(out: &mut String, position: usize, pane: PaneInfo)
    ensures
        final(out)@ == old(out)@ + pane_summary(position, pane),
{
    let kind: char = if pane.is_plugin {
        'P'
    } else {
        'T'
    };
    let ghost number = decimal(position as nat);
    let ghost id = decimal(pane.id as nat);
    let ghost flags = pane_flags(pane);
    out.push('t');
    push_decimal(out, position as u128);
    out.push(':');
    out.push(kind);
    assert(out@ =~= old(out)@ + (seq!['t'] + number + seq![':', kind]));
    push_decimal(out, pane.id as u128);
    out.push('[');
    assert(out@ =~= old(out)@ + (seq!['t'] + number + seq![':', kind] + id + seq!['[']));
    push_flags(out, pane);
    out.push(']');
    out.push(' ');
    assert(out@ =~= old(out)@ + (seq!['t'] + number + seq![':', kind] + id + seq!['['] + flags
        + seq![']', ' ']));
}

impl State {
    /// The command that makes our pane cover the target exactly, where both are known.
    pub fn cover_target(&self) -> (r: Option<Command>)
        ensures
            match r {
                Some(command) => self@.cover_commands() == seq![command@],
                None => self@.cover_commands() == Seq::<CommandView>::empty(),
            },
    {
        match self.self_id {
            Some(PaneId::Plugin(plugin)) => match self.target_geom {
                Some((x, y, cols, rows)) => Some(Command::Cover { plugin, x, y, cols, rows }),
                None => None,
            },
            _ => None,
        }
    }

    /// Notes a candidate, and appends what is asked of the host on its account.
    fn note(&mut self, pane: PaneInfo, commands: &mut Vec<Command>)
        ensures
            final(self)@ == old(self)@.noted(seq![pane]),
            commands_view(final(commands)@) == commands_view(old(commands)@)
                + old(self)@.noted_commands(seq![pane]),
    {
        self.last_focused_terminal = Some(PaneId::Terminal(pane.id));
        if self.target.is_none() {
            self.target = Some(PaneId::Terminal(pane.id));
            self.target_cursor = pane.cursor_coordinates_in_pane;
            let geom = (pane.pane_x, pane.pane_y, pane.pane_columns, pane.pane_rows);
            self.target_geom = Some(geom);
            assert(self@ =~= old(self)@.noted(seq![pane]));
            match self.cover_target() {
                Some(command) => push_command(commands, command),
                None => {},
            }
        }
        assert(commands_view(commands@) =~= commands_view(old(commands)@) + old(
            self,
        )@.noted_commands(seq![pane]));
    }

    /// Takes note of the panes: of the terminal that is focused in our own tab, which
    /// becomes the target where there is none yet, and of all of them for diagnosis.
    pub fn see_panes(&mut self, tabs: &Vec<Tab>) -> (r: Vec<Command>)
        ensures
            final(self)@ == old(self)@.panes_seen(tabs_view(tabs@)),
            commands_view(r@) == old(self)@.noted_commands(
                old(self)@.own_candidates(tabs_view(tabs@)),
            ),
    {
        let own = find_own_tab(tabs, self.self_id);
        let mut commands: Vec<Command> = Vec::new();
        let mut text = String::new();
        let ghost views = tabs_view(tabs@);
        let ghost s0 = self@;
        let mut i: usize = 0;
        assert(views.take(0) =~= seq![]);
        assert(commands_view(commands@) =~= s0.noted_commands(seq![]));
        while i < tabs.len()
            invariant
                i <= tabs.len(),
                views == tabs_view(tabs@),
                text@ == summary(views.take(i as int)),
                self@ == s0.noted(candidates(views.take(i as int), own)),
                commands_view(commands@) == s0.noted_commands(
                    candidates(views.take(i as int), own),
                ),
            decreases tabs.len() - i,
        {
            let position: usize = tabs[i].position;
            let panes = &tabs[i].panes;
            let ghost seen = candidates(views.take(i as int), own);
            let ghost told = summary(views.take(i as int));
            let ghost keep = |p: PaneInfo| is_candidate(p);
            let mine: bool = match own {
                Some(p) => p == position,
                None => false,
            };
            let ghost mut here: Seq<PaneInfo> = seq![];
            let mut j: usize = 0;
            proof {
                assert(seen + here =~= seen);
                assert(panes@.take(0) =~= seq![]);
                assert(told + seq![] =~= told);
                reveal(Seq::filter);
                assert(panes@.take(0).filter(keep) =~= seq![]);
            }
            while j < panes.len()
                invariant
                    j <= panes.len(),
                    keep == (|p: PaneInfo| is_candidate(p)),
                    mine == (own == Some(position)),
                    here == if mine {
                        panes@.take(j as int).filter(keep)
                    } else {
                        seq![]
                    },
                    text@ == told + tab_summary(position, panes@.take(j as int)),
                    self@ == s0.noted(seen + here),
                    commands_view(commands@) == s0.noted_commands(seen + here),
                decreases panes.len() - j,
            {
                let pane: PaneInfo = panes[j];
                let ghost before = seen + here;
                assert(panes@.take(j + 1).drop_last() =~= panes@.take(j as int));
                assert(panes@.take(j + 1).last() == pane);
                proof {
                    reveal(Seq::filter);
                }
                if mine && pane.is_focused && !pane.is_plugin && !pane.is_suppressed
                    && !pane.is_floating {
                    self.note(pane, &mut commands);
                    proof {
                        here = here.push(pane);
                        assert(seen + here =~= before.push(pane));
                        note_one_more(s0, before, pane);
                    }
                }
                push_summary(&mut text, position, pane);
                assert(text@ =~= told + tab_summary(position, panes@.take(j + 1)));
                j = j + 1;
            }
            assert(panes@.take(panes.len() as int) =~= panes@);
            assert(views.take(i + 1).drop_last() =~= views.take(i as int));
            assert(views.take(i + 1).last() == tabs[i as int]@);
            assert(here == tab_candidates(tabs[i as int]@, own));
            i = i + 1;
        }
        assert(views.take(tabs.len() as int) =~= views);
        self.dbg_panes = text;
        commands
    }
}

proof fn note_one_more(s: StateView, seen: Seq<PaneInfo>, pane: PaneInfo)
    ensures
        s.noted(seen.push(pane)) == s.noted(seen).noted(seq![pane]),
        s.noted_commands(seen.push(pane)) == s.noted_commands(seen) + s.noted(seen).noted_commands(
            seq![pane],
        ),
{
    if seen.len() == 0 {
        assert(seen.push(pane) =~= seq![pane]);
        assert(s.noted_commands(seen.push(pane)) =~= s.noted_commands(seen) + s.noted(
            seen,
        ).noted_commands(seq![pane]));
    } else {
        assert(seen.push(pane)[0] == seen[0]);
        assert(s.noted_commands(seen.push(pane)) =~= s.noted_commands(seen) + s.noted(
            seen,
        ).noted_commands(seq![pane]));
    }
}

} // verus!
