# clock_tui

A terminal clock (`tclock`) with timer, stopwatch and countdown modes, and
clock widgets: commands whose output is shown under the clock, refreshed on a
schedule, themed, scrollable and laid out in a row and in full-width bands.

The library under `src/` holds the clock's logic, verified with Verus:

- `app`: the modes, how the command line and `config.toml` combine into the
  mode that runs, the keys and the mouse, and reading target times.
- `clock`: clock mode's header and time text, its size and place, and where
  centered text and its header and footer go.
- `widgets`: the widgets' state: scheduling, themes, scrolling, hit testing
  and the layout of the row and the bands.
- `command`: what each step of running a widget's command decides.
- `ansi`: command output with SGR escape sequences read into styled lines.
- `layout`, `output`, `duration`, `settings`, `style`, `text`, `config`: the
  geometry, output cleaning, durations, option values, styles, string helpers
  and the config's values with their defaults.

Each module also states, as proof functions, the laws that hold across its
functions: for instance that no widget command runs twice at once, that the
clock's size is the largest that fits, and that plain output keeps its lines.

`app/` is the program around the library: the command line (clap), reading
the config file (serde and toml), the terminal loop (crossterm and ratatui),
and the threads that run widget commands.
