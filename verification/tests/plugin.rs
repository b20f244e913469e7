use zellij_copy_mode::command::Command;
use zellij_copy_mode::events::{Event, Outcome, Redraw};
use zellij_copy_mode::keys::{BareKey, KeyWithModifier};
use zellij_copy_mode::panes::{find_own_tab, PaneInfo, Tab};
use zellij_copy_mode::plugin::PaneContents;
use zellij_copy_mode::state::{Mode, PaneId, State};

fn pane(id: u32, is_plugin: bool) -> PaneInfo {
    PaneInfo {
        id,
        is_plugin,
        is_focused: false,
        is_suppressed: false,
        is_floating: false,
        cursor_coordinates_in_pane: None,
        pane_x: 0,
        pane_y: 0,
        pane_columns: 80,
        pane_rows: 24,
    }
}

fn session() -> Vec<Tab> {
    let elsewhere = PaneInfo { is_focused: true, ..pane(1, false) };
    let target = PaneInfo {
        is_focused: true,
        cursor_coordinates_in_pane: Some((2, 1)),
        pane_x: 10,
        pane_y: 5,
        pane_columns: 40,
        pane_rows: 12,
        ..pane(3, false)
    };
    let own = PaneInfo { is_focused: true, is_floating: true, ..pane(7, true) };
    vec![
        Tab { position: 0, panes: vec![elsewhere, pane(7, false)] },
        Tab { position: 4, panes: vec![pane(2, false), target, own] },
    ]
}

fn loaded() -> State {
    let mut s = State::default();
    s.load(7, String::from("/home/me"));
    s
}

fn update(s: &mut State, event: Event) -> Outcome {
    s.update(event)
}

fn key(c: char) -> Event {
    Event::Key(KeyWithModifier { bare_key: BareKey::Char(c), ctrl: false })
}

fn contents(above: &[&str], viewport: &[&str]) -> PaneContents {
    PaneContents {
        lines_above_viewport: above.iter().map(|l| l.to_string()).collect(),
        viewport: viewport.iter().map(|l| l.to_string()).collect(),
    }
}

fn cover() -> Command {
    Command::Cover { plugin: 7, x: 10, y: 5, cols: 40, rows: 12 }
}

fn dump() -> String {
    String::from("/host/.zellij-copy-mode-dump.ansi")
}

#[test]
fn loading_notes_the_own_pane() {
    let s = loaded();
    assert_eq!(s.self_id, Some(PaneId::Plugin(7)));
    assert_eq!(s.mode, Mode::Normal);
    assert_eq!(s.dump_host_path(), "/home/me/.zellij-copy-mode-dump.ansi");
    assert_eq!(s.dump_sandbox_path(), dump());
}

#[test]
fn the_target_is_the_focused_terminal_in_our_tab() {
    let mut s = loaded();
    let outcome = update(&mut s, Event::PaneUpdate(session()));
    assert_eq!(outcome.redraw, Redraw::UnlessLoaded);
    assert_eq!(outcome.commands, [cover()]);
    assert_eq!(s.target, Some(PaneId::Terminal(3)));
    assert_eq!(s.last_focused_terminal, Some(PaneId::Terminal(3)));
    assert_eq!(s.target_cursor, Some((2, 1)));
    assert_eq!(s.target_geom, Some((10, 5, 40, 12)));
    assert_eq!(s.dbg_panes, "t0:T1[F] t0:T7[] t4:T2[] t4:T3[F] t4:P7[Ff] ");
    assert!(!s.entered);
}

#[test]
fn the_order_of_tabs_does_not_matter() {
    let mut s = loaded();
    let mut tabs = session();
    tabs.reverse();
    assert_eq!(find_own_tab(&tabs, s.self_id), Some(4));
    update(&mut s, Event::PaneUpdate(tabs));
    assert_eq!(s.target, Some(PaneId::Terminal(3)));
}

#[test]
fn suppressed_floating_and_foreign_panes_are_no_target() {
    let mut s = loaded();
    let mut tabs = session();
    tabs[1].panes[1].is_suppressed = true;
    assert!(update(&mut s, Event::PaneUpdate(tabs)).commands.is_empty());
    assert_eq!(s.target, None);
    assert_eq!(s.dbg_panes, "t0:T1[F] t0:T7[] t4:T2[] t4:T3[FS] t4:P7[Ff] ");
    let mut tabs = session();
    tabs[1].panes[1].is_floating = true;
    update(&mut s, Event::PaneUpdate(tabs));
    assert_eq!(s.target, None);
    let mut tabs = session();
    tabs[1].panes.pop();
    assert_eq!(find_own_tab(&tabs, s.self_id), None);
    update(&mut s, Event::PaneUpdate(tabs));
    assert_eq!(s.target, None);
    assert_eq!(find_own_tab(&session(), None), None);
}

#[test]
fn a_target_is_kept() {
    let mut s = loaded();
    update(&mut s, Event::PaneUpdate(session()));
    let mut tabs = session();
    tabs[1].panes[1].is_focused = false;
    tabs[1].panes[0].is_focused = true;
    assert!(update(&mut s, Event::PaneUpdate(tabs)).commands.is_empty());
    assert_eq!(s.target, Some(PaneId::Terminal(3)));
    assert_eq!(s.target_geom, Some((10, 5, 40, 12)));
    assert_eq!(s.last_focused_terminal, Some(PaneId::Terminal(2)));
}

#[test]
fn entering_takes_permissions_and_a_target_and_happens_once() {
    let mut s = loaded();
    let outcome = update(&mut s, Event::PermissionGranted);
    assert_eq!(outcome.redraw, Redraw::Yes);
    assert!(outcome.commands.is_empty());
    let outcome = update(&mut s, Event::PaneUpdate(session()));
    let entry = [
        cover(),
        Command::InterceptKeys,
        Command::ReadScrollback(PaneId::Terminal(3)),
    ];
    assert_eq!(outcome.commands[0], cover());
    assert_eq!(outcome.commands[1..], entry);
    assert!(s.entered);
    assert!(s.redraws(outcome.redraw));
    assert!(update(&mut s, Event::PermissionGranted).commands.is_empty());
    assert!(update(&mut s, Event::PaneUpdate(session())).commands.is_empty());

    let mut t = loaded();
    update(&mut t, Event::PaneUpdate(session()));
    assert_eq!(update(&mut t, Event::PermissionGranted).commands, entry);

    let mut u = State::default();
    assert!(u.enter().is_empty());
    assert!(!u.entered);
    u.target = Some(PaneId::Terminal(1));
    assert_eq!(
        u.enter(),
        [Command::InterceptKeys, Command::ReadScrollback(PaneId::Terminal(1))]
    );
    assert!(u.cover_target().is_none());
}

#[test]
fn refused_permissions_are_reported() {
    let mut s = loaded();
    let outcome = update(&mut s, Event::PermissionDenied);
    assert_eq!((outcome.redraw, s.status.as_str()), (Redraw::Yes, "permissions denied"));
}

#[test]
fn the_scrollback_is_shown_at_the_live_position() {
    let mut s = loaded();
    update(&mut s, Event::PaneUpdate(session()));
    update(&mut s, Event::PermissionGranted);
    s.dump_attempts = 9;
    let commands = s.scrollback_read(Ok(contents(&["old", "older"], &["$ ls", "file", "$ "])));
    assert_eq!(
        commands,
        [
            Command::DumpScreen {
                path: String::from("/home/me/.zellij-copy-mode-dump.ansi"),
                pane: PaneId::Terminal(3)
            },
            Command::SetTimeout
        ]
    );
    assert!(s.loaded && s.needs_initial_scroll && !s.colored);
    assert_eq!(s.viewport_start, 2);
    assert_eq!((s.cur_row, s.cur_col), (3, 2));
    assert_eq!(s.grid[s.cur_row][s.cur_col].ch, 'l');
    assert_eq!(s.status, "COPY (5 lines, 22 bytes)");
    assert_eq!(s.dump_attempts, 0);
    assert!(!s.redraws(Redraw::UnlessLoaded));
    assert!(s.redraws(Redraw::Yes) && !s.redraws(Redraw::No));
}

#[test]
fn without_a_live_cursor_the_last_row_is_taken() {
    let mut s = loaded();
    s.target = Some(PaneId::Terminal(1));
    s.rows = 3;
    s.scrollback_read(Ok(contents(&[], &["a", "b", "c"])));
    assert_eq!((s.cur_row, s.cur_col, s.scroll), (2, 0, 1));
    assert_eq!(s.viewport_start, 0);
    let mut t = loaded();
    t.target_cursor = Some((80, usize::MAX));
    assert!(t.scrollback_read(Ok(contents(&["a"], &["bcd"]))).is_empty());
    assert_eq!((t.cur_row, t.cur_col), (1, 2));
}

#[test]
fn an_empty_scrollback_has_one_empty_row() {
    let mut s = loaded();
    s.scrollback_read(Ok(contents(&[], &[])));
    assert_eq!(s.grid.len(), 1);
    assert!(s.grid[0].is_empty());
    assert_eq!(s.status, "COPY (1 lines, 0 bytes)");
    assert_eq!((s.cur_row, s.cur_col), (0, 0));
}

#[test]
fn texts_of_panes() {
    assert_eq!(contents(&["a", "b"], &["c", "d"]).text(), "a\nb\nc\nd");
    assert_eq!(contents(&[], &["c"]).text(), "c");
    assert_eq!(contents(&["a"], &[]).text(), "a\n");
}

#[test]
fn a_scrollback_that_cannot_be_read_is_reported() {
    let mut s = loaded();
    s.target = Some(PaneId::Terminal(1));
    let commands = s.scrollback_read(Err(String::from("no such pane")));
    assert_eq!(commands.len(), 2);
    assert_eq!(s.status, "scrollback err: no such pane");
    assert!(!s.loaded);
}

#[test]
fn ingesting_bytes() {
    let mut s = loaded();
    s.ingest_dump("\x1b[1mä\nb".as_bytes());
    assert_eq!(s.status, "COPY (2 lines, 8 bytes)");
    assert!(s.grid[0][0].style.bold);
    assert_eq!(s.cur_row, 1);
    s.ingest_grid(Vec::new(), 3);
    assert_eq!(s.status, "COPY (1 lines, 3 bytes)");
}

#[test]
fn the_dump_is_polled_for_and_given_up() {
    let mut s = loaded();
    assert_eq!(update(&mut s, Event::Timer).redraw, Redraw::No);
    s.entered = true;
    for attempt in 1..50 {
        let event = if attempt % 2 == 0 { Event::Timer } else { Event::ActionComplete };
        let outcome = update(&mut s, event);
        assert_eq!(outcome.redraw, Redraw::Yes);
        assert_eq!(outcome.commands, [Command::ReadDump { path: dump() }]);
        assert_eq!(s.dump_attempts, attempt);
        let next = s.dump_read(if attempt % 3 == 0 { Some(Vec::new()) } else { None });
        if attempt < 40 {
            assert_eq!(next, [Command::SetTimeout]);
        } else {
            assert!(next.is_empty());
        }
    }
    assert!(!s.colored);
    s.dump_attempts = u32::MAX;
    assert_eq!(s.poll_dump().len(), 1);
    assert_eq!(s.dump_attempts, u32::MAX);
}

#[test]
fn a_dump_that_shows_nothing_is_looked_for_again() {
    let mut s = loaded();
    assert_eq!(s.dump_read(Some(b"\x1b[0m".to_vec())), [Command::SetTimeout]);
    assert!(!s.colored);
}

#[test]
fn the_colored_dump_takes_the_place_of_the_plain_one() {
    let mut s = loaded();
    s.entered = true;
    s.scrollback_read(Ok(contents(&["abc", "abc"], &["abc", "abc"])));
    s.cur_row = 2;
    s.cur_col = 1;
    s.scroll = 1;
    let commands = s.dump_read(Some(b"abc\nabc\na\x1b[31mb\x1b[0mc\nabc".to_vec()));
    assert_eq!(commands, [Command::RemoveDump { path: dump() }]);
    assert!(s.colored);
    assert_eq!((s.cur_row, s.cur_col, s.scroll), (2, 1, 1));
    assert_eq!(s.grid[2][1].style.sgr(), "\x1b[0;38;5;1m");
    assert!(s.poll_dump().is_empty());
    let outcome = update(&mut s, Event::Timer);
    assert!(outcome.commands.is_empty() && outcome.redraw == Redraw::No);
    s.colored = false;
    s.dump_read(Some(b"x".to_vec()));
    assert_eq!((s.cur_row, s.cur_col, s.scroll), (0, 0, 1));
    assert!(s.show_dump(Vec::new()) == [Command::SetTimeout]);
}

#[test]
fn keys_before_the_scrollback_is_there_only_leave() {
    let mut s = loaded();
    assert!(update(&mut s, key('j')).commands.is_empty());
    let outcome = update(&mut s, key('q'));
    assert_eq!(outcome.redraw, Redraw::No);
    assert_eq!(outcome.commands, [Command::ClearKeyIntercepts, Command::CloseSelf]);
    let esc = Event::Key(KeyWithModifier { bare_key: BareKey::Esc, ctrl: false });
    assert_eq!(update(&mut s, esc).commands.len(), 2);
    assert_eq!(update(&mut s, Event::Other).redraw, Redraw::No);
}

#[test]
fn keys_reach_the_grid() {
    let mut s = loaded();
    s.ingest_dump(b"abc\ndef");
    assert_eq!(update(&mut s, key('l')).redraw, Redraw::Yes);
    assert_eq!((s.cur_row, s.cur_col), (1, 1));
    assert_eq!(update(&mut s, key('z')).redraw, Redraw::No);
}

#[test]
fn events_keep_the_cursor_in_the_grid() {
    let mut s = loaded();
    s.ingest_dump("abc\n\u{130}\u{e9}x".as_bytes());
    for c in "/x".chars() {
        update(&mut s, key(c));
    }
    update(&mut s, Event::Key(KeyWithModifier { bare_key: BareKey::Enter, ctrl: false }));
    assert_eq!((s.cur_row, s.cur_col), (1, 2));
    assert_eq!(update(&mut s, key('n')).redraw, Redraw::Yes);
    assert_eq!((s.cur_row, s.cur_col), (1, 2));
}

#[test]
fn a_selection_behind_the_end_of_its_row_copies_nothing() {
    let mut s = loaded();
    s.ingest_dump(b"abc");
    s.mode = Mode::Visual;
    s.anchor = Some((0, 9));
    s.cur_col = 12;
    let outcome = update(&mut s, key('y'));
    assert_eq!(outcome.commands, [Command::ClearKeyIntercepts, Command::CloseSelf]);
}
