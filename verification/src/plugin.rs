//! The course of copy mode: loading, entering, reading the dump, and the host's events.
use vstd::prelude::*;
use vstd::string::*;
use vstd::utf8::encode_utf8;

use crate::command::{commands_view, Command, CommandView};
use crate::dump::{build, grid_view, parse_dump, Cell, Line};
use crate::state::{smaller, Mode, PaneId, State, StateView};
use crate::text::{decimal, join_lines, push_decimal};
use crate::vt::{all_readable, parser_actions, piece_actions, stream, Piece};

verus! {

/// The name of the file that the colored scrollback is dumped to.
pub const DUMP_NAME: &'static str = ".zellij-copy-mode-dump.ansi";

/// How often the dump is looked for before copy mode does without it.
pub const MAX_DUMP_ATTEMPTS: u32 = 40;

/// The delay between two looks, in milliseconds.
pub const POLL_DELAY_MS: u32 = 50;

/// What the host knows of the contents of a pane.
pub struct PaneContents {
    pub lines_above_viewport: Vec<String>,
    pub viewport: Vec<String>,
}

/// The model of a `PaneContents`.
pub struct PaneContentsView {
    pub above: Seq<Seq<char>>,
    pub viewport: Seq<Seq<char>>,
}

/// The model of a list of strings.
pub open spec fn strings_view(strings: Seq<String>) -> Seq<Seq<char>> {
    strings.map_values(|s: String| s@)
}

impl View for PaneContents {
    type V = PaneContentsView;

    open spec fn view(&self) -> PaneContentsView {
        PaneContentsView {
            above: strings_view(self.lines_above_viewport@),
            viewport: strings_view(self.viewport@),
        }
    }
}

impl PaneContentsView {
    /// The lines of the pane, from the top of its scrollback on, as one text.
    pub open spec fn text(self) -> Seq<char> {
        (if self.above.len() == 0 {
            seq![]
        } else {
            join_lines(self.above).push('\n')
        }) + join_lines(self.viewport)
    }
}

/// The given lines, with a newline between each two neighbours.
fn join_strings(lines: &Vec<String>) -> (r: String)
    ensures
        r@ == join_lines(strings_view(lines@)),
{
    let mut out = String::new();
    let mut i: usize = 0;
    let ghost views = strings_view(lines@);
    assert(views.take(0) =~= seq![]);
    while i < lines.len()
        invariant
            i <= lines.len(),
            views == strings_view(lines@),
            out@ == join_lines(views.take(i as int)),
        decreases lines.len() - i,
    {
        assert(views.take(i + 1).drop_last() =~= views.take(i as int));
        if i > 0 {
            out.push('\n');
        }
        out.append(lines[i].as_str());
        assert(out@ =~= join_lines(views.take(i + 1)));
        i = i + 1;
    }
    assert(views.take(lines.len() as int) =~= views);
    out
}

impl PaneContents {
    /// The lines of the pane, from the top of its scrollback on, as one text.
    pub fn text(&self) -> (r: String)
        ensures
            r@ == self@.text(),
    {
        let mut text = join_strings(&self.lines_above_viewport);
        if !self.lines_above_viewport.is_empty() {
            text.push('\n');
        }
        let viewport = join_strings(&self.viewport);
        text.append(viewport.as_str());
        assert(text@ =~= self@.text());
        text
    }
}

impl StateView {
    /// The file of the dump, as the host names it.
    pub open spec fn dump_host_path(self) -> Seq<char> {
        self.host_cwd.push('/') + DUMP_NAME@
    }

    /// The state that shows a grid for the first time, with the cursor at the start of
    /// its last row. A grid without rows gets an empty one.
    pub open spec fn ingested(self, parsed: Seq<Seq<Cell>>, size: int) -> StateView {
        let grid = if parsed.len() == 0 {
            seq![Seq::<Cell>::empty()]
        } else {
            parsed
        };
        (StateView {
            grid,
            loaded: true,
            cur_row: grid.len() - 1,
            cur_col: 0,
            status: "COPY ("@ + decimal(grid.len()) + " lines, "@ + decimal(size as nat)
                + " bytes)"@,
            ..self
        }).scrolled()
    }

    /// The cursor where the target's own cursor is, counted from row `start` on, where it
    /// is known.
    pub open spec fn at_target_cursor(self, start: int) -> StateView {
        match self.target_cursor {
            Some((x, y)) => StateView {
                cur_row: smaller(start + y, usize::MAX as int),
                cur_col: x as int,
                ..self
            },
            None => self,
        }
    }

    /// The state that shows the scrollback, whose text has been parsed into a grid.
    pub open spec fn scrollback_shown(
        self,
        contents: PaneContentsView,
        parsed: Seq<Seq<Cell>>,
    ) -> StateView {
        let start = contents.above.len() as int;
        let size = encode_utf8(contents.text()).len() as int;
        let shown = (StateView { viewport_start: start, ..self }).ingested(parsed, size);
        StateView { needs_initial_scroll: true, ..shown.at_target_cursor(start).clamped() }
    }

    /// The state after our own pane and the host's folder have been noted.
    pub open spec fn loading(self, plugin_id: u32, cwd: Seq<char>) -> StateView {
        StateView {
            self_id: Some(PaneId::Plugin(plugin_id)),
            host_cwd: cwd,
            mode: Mode::Normal,
            ..self
        }
    }

    /// The state after the scrollback has been read, and its text parsed into a grid: the
    /// looks for the colored dump start from the beginning.
    pub open spec fn scrollback_taken(
        self,
        contents: PaneContentsView,
        parsed: Seq<Seq<Cell>>,
    ) -> StateView {
        StateView { dump_attempts: 0, ..self.scrollback_shown(contents, parsed) }
    }

    /// The state after the scrollback could not be read.
    pub open spec fn scrollback_failed(self, reason: Seq<char>) -> StateView {
        StateView { status: "scrollback err: "@ + reason, dump_attempts: 0, ..self }
    }

    /// Whether copy mode can be entered: it may act, it has a target, and it has not been
    /// entered before.
    pub open spec fn may_enter(self) -> bool {
        self.permissions_granted && self.target is Some && !self.entered
    }

    /// The state in which copy mode has been entered, where it has a target.
    pub open spec fn entering(self) -> StateView {
        if self.target is Some {
            StateView { entered: true, ..self }
        } else {
            self
        }
    }

    /// What entering copy mode asks of the host: to cover the target, to send the keys
    /// here, and to read the scrollback of the target.
    pub open spec fn enter_commands(self) -> Seq<CommandView> {
        match self.target {
            Some(target) => self.cover_commands() + seq![
                CommandView::InterceptKeys,
                CommandView::ReadScrollback(target),
            ],
            None => seq![],
        }
    }

    /// What is asked of the host once the scrollback is there: to dump the target in
    /// color, and to report back.
    pub open spec fn dump_commands(self) -> Seq<CommandView> {
        match self.target {
            Some(target) => seq![
                CommandView::DumpScreen { path: self.dump_host_path(), pane: target },
                CommandView::SetTimeout,
            ],
            None => seq![],
        }
    }

    /// The state after a look for the dump has been started.
    pub open spec fn polled(self) -> StateView {
        if self.colored {
            self
        } else {
            StateView {
                dump_attempts: smaller(self.dump_attempts + 1, u32::MAX as int),
                ..self
            }
        }
    }

    /// What a look for the dump asks of the host.
    pub open spec fn poll_commands(self) -> Seq<CommandView> {
        if self.colored {
            seq![]
        } else {
            seq![CommandView::ReadDump { path: sandbox_path() }]
        }
    }

    /// The state after the dump has been read and parsed into `parsed`: the colored grid,
    /// with the cursor kept where the grid allows it. A dump without rows changes nothing.
    pub open spec fn dump_shown(self, parsed: Seq<Seq<Cell>>) -> StateView {
        if parsed.len() == 0 {
            self
        } else {
            (StateView { grid: parsed, colored: true, ..self }).clamped()
        }
    }

    /// What is asked of the host after a look for the dump that found a grid of `parsed`:
    /// to delete the dump, or to report back for another look, as long as there is one
    /// left.
    pub open spec fn after_look(self, parsed: Seq<Seq<Cell>>) -> Seq<CommandView> {
        if parsed.len() > 0 {
            seq![CommandView::RemoveDump { path: sandbox_path() }]
        } else if self.dump_attempts < MAX_DUMP_ATTEMPTS {
            seq![CommandView::SetTimeout]
        } else {
            seq![]
        }
    }
}

/// The file of the dump, as the sandbox names it.
pub open spec fn sandbox_path() -> Seq<char> {
    "/host/"@ + DUMP_NAME@
}

impl State {
    /// Takes note of our own pane and of the host's folder.
    pub fn load(&mut self, plugin_id: u32, initial_cwd: String)
        ensures
            final(self)@ == (StateView {
                self_id: Some(PaneId::Plugin(plugin_id)),
                host_cwd: initial_cwd@,
                mode: Mode::Normal,
                ..old(self)@
            }),
            final(self)@ == old(self)@.loading(plugin_id, initial_cwd@),
    {
        self.self_id = Some(PaneId::Plugin(plugin_id));
        self.host_cwd = initial_cwd;
        self.mode = Mode::Normal;
    }

    /// The file of the dump, as the host names it.
    pub fn dump_host_path(&self) -> (r: String)
        ensures
            r@ == self@.dump_host_path(),
    {
        let mut path = self.host_cwd.clone();
        path.push('/');
        path.append(DUMP_NAME);
        path
    }

    /// The file of the dump, as the sandbox names it.
    pub fn dump_sandbox_path(&self) -> (r: String)
        ensures
            r@ == sandbox_path(),
    {
        let mut path = "/host/".to_owned();
        path.append(DUMP_NAME);
        path
    }

    /// Shows a grid that was parsed from `size` bytes for the first time.
    pub fn ingest_grid(&mut self, parsed: Vec<Line>, size: usize)
        ensures
            final(self)@ == old(self)@.ingested(grid_view(parsed@), size as int),
    {
        self.grid = parsed;
        if self.grid.is_empty() {
            self.grid.push(Vec::new());
        }
        assert(self@.grid =~= if parsed@.len() == 0 {
            seq![Seq::<Cell>::empty()]
        } else {
            grid_view(parsed@)
        });
        self.loaded = true;
        self.cur_row = self.grid.len() - 1;
        self.cur_col = 0;
        let mut status = "COPY (".to_owned();
        push_decimal(&mut status, self.grid.len() as u128);
        status.append(" lines, ");
        push_decimal(&mut status, size as u128);
        status.append(" bytes)");
        self.status = status;
        self.scroll_to_cursor();
    }

    /// Parses a dump and shows it for the first time. The contract follows that of
    /// `parse_dump`.
    pub fn ingest_dump(&mut self, bytes: &[u8])
        ensures
            final(self)@ == old(self)@.ingested(
                build(parser_actions(bytes@)),
                bytes@.len() as int,
            ),
            forall|pieces: Seq<Piece>|
                all_readable(pieces) && bytes@ == encode_utf8(#[trigger] stream(pieces))
                    ==> final(self)@ == old(self)@.ingested(
                    build(piece_actions(pieces)),
                    bytes@.len() as int,
                ),
    {
        let grid = parse_dump(bytes);
        self.ingest_grid(grid, bytes.len());
    }

    /// Puts the cursor where the target's own cursor is, counted from the start of the
    /// viewport on, and asks for the view to start at the bottom.
    fn follow_target(&mut self)
        ensures
            final(self)@ == (StateView {
                needs_initial_scroll: true,
                ..old(self)@.at_target_cursor(old(self)@.viewport_start).clamped()
            }),
    {
        match self.target_cursor {
            Some((x, y)) => {
                self.cur_row = self.viewport_start.saturating_add(y);
                self.cur_col = x;
            },
            None => {},
        }
        self.clamp_cursor();
        self.needs_initial_scroll = true;
    }

    /// Shows the scrollback of the target.
    fn show_scrollback(&mut self, contents: &PaneContents)
        ensures
            final(self)@ == old(self)@.scrollback_shown(
                contents@,
                build(parser_actions(encode_utf8(contents@.text()))),
            ),
            forall|pieces: Seq<Piece>|
                all_readable(pieces) && contents@.text() == #[trigger] stream(pieces)
                    ==> final(self)@ == old(self)@.scrollback_shown(
                    contents@,
                    build(piece_actions(pieces)),
                ),
    {
        self.viewport_start = contents.lines_above_viewport.len();
        let ghost s1 = self@;
        let text = contents.text();
        let bytes: &[u8] = text.as_str().as_bytes();
        self.ingest_dump(bytes);
        self.follow_target();
        assert(s1 == (StateView {
            viewport_start: contents@.above.len() as int,
            ..old(self)@
        }));
    }

    /// Shows the scrollback of the target, or the reason why it could not be read, and
    /// says what to ask of the host next. The contract on the text follows that of
    /// `parse_dump`.
    pub fn scrollback_read(&mut self, scrollback: Result<PaneContents, String>) -> (r: Vec<Command>)
        ensures
            commands_view(r@) == old(self)@.dump_commands(),
            match scrollback {
                Ok(contents) => {
                    &&& final(self)@ == (StateView {
                        dump_attempts: 0,
                        ..old(self)@.scrollback_shown(
                            contents@,
                            build(parser_actions(encode_utf8(contents@.text()))),
                        )
                    })
                    &&& forall|pieces: Seq<Piece>|
                        all_readable(pieces) && contents@.text() == #[trigger] stream(pieces)
                            ==> final(self)@ == (StateView {
                            dump_attempts: 0,
                            ..old(self)@.scrollback_shown(contents@, build(piece_actions(pieces)))
                        })
                },
                Err(reason) => final(self)@ == (StateView {
                    status: "scrollback err: "@ + reason@,
                    dump_attempts: 0,
                    ..old(self)@
                }),
            },
            match scrollback {
                Ok(contents) => final(self)@ == old(self)@.scrollback_taken(
                    contents@,
                    build(parser_actions(encode_utf8(contents@.text()))),
                ),
                Err(reason) => final(self)@ == old(self)@.scrollback_failed(reason@),
            },
    {
        match scrollback {
            Ok(contents) => self.show_scrollback(&contents),
            Err(reason) => {
                let mut status = "scrollback err: ".to_owned();
                status.append(reason.as_str());
                self.status = status;
            },
        }
        self.dump_attempts = 0;
        self.request_dump()
    }

    /// What is asked of the host once the scrollback is there.
    fn request_dump(&self) -> (r: Vec<Command>)
        ensures
            commands_view(r@) == self@.dump_commands(),
    {
        let mut commands: Vec<Command> = Vec::new();
        match self.target {
            Some(pane) => {
                commands.push(Command::DumpScreen { path: self.dump_host_path(), pane });
                commands.push(Command::SetTimeout);
            },
            None => {},
        }
        assert(commands_view(commands@) =~= self@.dump_commands());
        commands
    }

    /// Enters copy mode, where there is a target, and says what to ask of the host.
    pub fn enter(&mut self) -> (r: Vec<Command>)
        ensures
            final(self)@ == old(self)@.entering(),
            commands_view(r@) == old(self)@.enter_commands(),
    {
        let mut commands: Vec<Command> = Vec::new();
        match self.target {
            Some(target) => {
                self.entered = true;
                match self.cover_target() {
                    Some(command) => {
                        commands.push(command);
                    },
                    None => {},
                }
                commands.push(Command::InterceptKeys);
                commands.push(Command::ReadScrollback(target));
            },
            None => {},
        }
        assert(self@.cover_commands() == old(self)@.cover_commands());
        assert(commands_view(commands@) =~= old(self)@.enter_commands());
        commands
    }

    /// Enters copy mode where it can be entered.
    pub fn maybe_enter(&mut self) -> (r: Vec<Command>)
        ensures
            final(self)@ == if old(self)@.may_enter() {
                old(self)@.entering()
            } else {
                old(self)@
            },
            commands_view(r@) == if old(self)@.may_enter() {
                old(self)@.enter_commands()
            } else {
                seq![]
            },
            final(self)@ == old(self)@.maybe_entered(),
            commands_view(r@) == old(self)@.maybe_enter_commands(),
    {
        if self.permissions_granted && self.target.is_some() && !self.entered {
            self.enter()
        } else {
            let commands: Vec<Command> = Vec::new();
            assert(commands_view(commands@) =~= seq![]);
            commands
        }
    }

    /// Starts a look for the dump, unless the grid comes from it already.
    pub fn poll_dump(&mut self) -> (r: Vec<Command>)
        ensures
            final(self)@ == old(self)@.polled(),
            commands_view(r@) == old(self)@.poll_commands(),
    {
        let mut commands: Vec<Command> = Vec::new();
        if !self.colored {
            self.dump_attempts = self.dump_attempts.saturating_add(1);
            commands.push(Command::ReadDump { path: self.dump_sandbox_path() });
        }
        assert(commands_view(commands@) =~= old(self)@.poll_commands());
        commands
    }

    /// Shows the grid that a look for the dump found, and says what to ask of the host.
    pub fn show_dump(&mut self, parsed: Vec<Line>) -> (r: Vec<Command>)
        ensures
            final(self)@ == old(self)@.dump_shown(grid_view(parsed@)),
            commands_view(r@) == old(self)@.after_look(grid_view(parsed@)),
    {
        let mut commands: Vec<Command> = Vec::new();
        if !parsed.is_empty() {
            self.grid = parsed;
            self.colored = true;
            self.clamp_cursor();
            commands.push(Command::RemoveDump { path: self.dump_sandbox_path() });
        } else if self.dump_attempts < MAX_DUMP_ATTEMPTS {
            commands.push(Command::SetTimeout);
        }
        assert(commands_view(commands@) =~= old(self)@.after_look(grid_view(parsed@)));
        commands
    }

    /// Takes over the dump, where it could be read and is not empty, and says what to ask
    /// of the host. The contract follows that of `parse_dump`.
    pub fn dump_read(&mut self, dump: Option<Vec<u8>>) -> (r: Vec<Command>)
        ensures
            match dump {
                Some(bytes) => {
                    &&& final(self)@ == old(self)@.dump_shown(found(bytes@))
                    &&& commands_view(r@) == old(self)@.after_look(found(bytes@))
                    &&& forall|pieces: Seq<Piece>|
                        all_readable(pieces) && bytes@.len() > 0 && bytes@ == encode_utf8(
                            #[trigger] stream(pieces),
                        ) ==> final(self)@ == old(self)@.dump_shown(build(piece_actions(pieces)))
                            && commands_view(r@) == old(self)@.after_look(
                            build(piece_actions(pieces)),
                        )
                },
                None => final(self)@ == old(self)@ && commands_view(r@) == old(self)@.after_look(
                    seq![],
                ),
            },
    {
        let mut parsed: Vec<Line> = Vec::new();
        match &dump {
            Some(bytes) => {
                if !bytes.is_empty() {
                    parsed = parse_dump(bytes.as_slice());
                }
            },
            None => {},
        }
        assert(dump is None || dump->0@.len() == 0 ==> grid_view(parsed@) =~= seq![]);
        self.show_dump(parsed)
    }
}

/// The grid that a dump holds. An empty file holds none.
pub open spec fn found(bytes: Seq<u8>) -> Seq<Seq<Cell>> {
    if bytes.len() == 0 {
        seq![]
    } else {
        build(parser_actions(bytes))
    }
}

} // verus!
