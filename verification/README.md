# JXTimer

A focus timer for streamers: a stopwatch with a large readout, an overlay that
streaming software can key out, preferences that survive a restart, and four
global shortcuts.

The library under `src/` is written in Verus. It holds everything that the timer
decides, and proves it:

- `timer`, `time`, `text`: the stopwatch, which is read from explicit monotonic
  durations, and its readout.
- `action`, `viewport`: what the user can ask for, and what is asked of the
  window.
- `settings`, `schema`, `color`, `scalar`: the preferences, their file format,
  and how malformed files are read. Single-precision numbers are held as their
  bits.
- `load`, `save`, `replace`: which files are read and written in which order, as
  state machines that the caller drives.
- `keys`, `capture`, `hotkey`: the keyboard, capturing a shortcut from it, and
  shortcuts as `global_hotkey` reads and prints them.
- `transaction`, `ownership`: registering four shortcuts with the system, all or
  none, and what is registered afterwards.
- `surface`, `timer_app`: the settings window and the program as a whole.

Laws that relate several functions are public proof functions whose names start
with `law_`.

The program under `app/` draws the windows with `eframe`, reads the clock, the
keyboard and the disk, and talks to the system's shortcuts.
