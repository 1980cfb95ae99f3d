# NaviPod

A Subsonic music player for a click-wheel device, with its rules verified by Verus.

- `src/` is the library: plain data and the rules over it, every function with its contract.
  - `clickwheel`, `relay`: the wheel's events, and how the emulator sends them
  - `config`, `subsonic`, `db`: the configuration, the server's API, the rows of the database
  - `player`: the playback state machine
  - `system`: what the system's tools write, and how they are called
  - `ui`: the lists, the keyboard, the window's state, the navigation, what plays, the covers
  - `single`, `text`: single-precision numbers by their bits, and texts
- `tests/` runs the library.
- `app/` is the program around it: sockets, subprocesses, HTTP, SQLite, audio and the window.
  Started with `clickwheel_emu`, it is the wheel's emulator.

Functions named `law_…` state what holds of several functions together.
