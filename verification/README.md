# odjk-sv

A service manager for runit.

The list shows all supervised services with their state, process number, command and time.
The buttons of a row stop or start the service (`sudo sv down`, `sudo sv up`), disable or
enable it (creating or removing the empty file `down` in the directory of the service, which
takes it out of the autostart and leaves its link), or remove its link. A dialog adds links.

- `src/` is the library, verified with Verus: reading what `sv` and `ls` print, loading the
  list question by question, the state of the window, and the commands that the buttons stand
  for. `src/laws.rs`, `src/printed.rs` and `src/disk.rs` state what holds across these.
- `app/` is the program around it: windows (eframe), processes, threads, environment.
- `tests/` holds examples.
