# portx

A terminal map of all 65536 ports of the machine: which are listening,
connected or in UDP use, and by which process.

- `src/` is the library, verified with Verus. `ports` reads the platform's
  socket listings (`/proc/net/*` on Linux, `lsof` output on macOS) into a
  table indexed by port; `ui` decides what the grid, the active-ports panel
  and the popups show; `kill` and `events` are the interactive flow; `text`
  and `num` are the character and number handling these share.
- `app/` is the program around it: reading the files and running `lsof`,
  resolving user names, sending signals, and drawing with ratatui.
- `tests/` runs the library on sample listings and interactions.
