# zellij-copy-mode

A tmux-style copy mode for [Zellij](https://zellij.dev), as a plugin whose logic is
verified with Verus. A key opens the plugin as a floating pane on top of the focused
terminal; the scrollback of that terminal is shown there, navigated with vi motions,
searched, selected, and yanked to the clipboard.

| Key | Action |
|-----|--------|
| `h/j/k/l`, arrows | Move cursor |
| `w` / `b` | Word forward / back |
| `0` / `$` | Line start / end |
| `g` / `G` | Top / bottom |
| `Ctrl-d` / `Ctrl-u` | Half page down / up |
| `Ctrl-f` / `Ctrl-b` | Page down / up |
| `v` / `V` | Char / line visual select |
| `y` / `Enter` | Yank selection to the clipboard, exit |
| `/`, `n`, `N` | Search, next / previous |
| `q` / `Esc` | Exit |

## Layout

- `src/` is the verified library. `State` holds all of copy mode; `StateView` is its
  model, and the contracts say what each operation does to it. An event of the host leads
  to a list of commands (`State::update`), and what the host reads for a command is handed
  back (`scrollback_read`, `dump_read`). `laws.rs` and `entry_laws.rs` state what holds of
  copy mode as a whole; further laws stand beside the functions they speak of.
- `app/` is the plugin around it: it converts the events of `zellij-tile` and carries out
  the commands.
- `tests/` runs the library on concrete values.

Terminal streams are parsed by the `vte` crate. What the library takes on trust of it, and
of a few functions of the standard library, is stated in `src/vt.rs` and `src/text.rs`.
