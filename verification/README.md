# skttmp

Online two-player play for a local co-op game: a runner window that
injects a payload library into the game, and the payload that hooks the
game's frame delay to drive two virtual pads in lockstep.

- `src/` is the verified library (Verus): the payload's per-frame input rings,
  start-up menu script and frame-synchronisation decisions; the runner's log,
  peer table, key bindings and message texts; the UTF-16 module name lookup.
- `app/` is the program around it: the window (macroquad), the UDP socket
  (laminar), process injection, the Windows hooks and the virtual pads.
- `tests/` exercises the library on concrete values.
