# wisteria

A Wayland shell bar for Hyprland. The library in `src/` is verified with Verus:

- `text`: trimming, splitting, joining and decimal numbers over `Seq<char>`.
- `compositor`: the workspace list, focusing, placing, creating and removing
  workspaces, and the sorted listing a bar shows for one display.
- `hyprland`: Hyprland's socket paths and requests, its event lines and the
  state machine they drive, and its JSON replies (read with serde_json).
- `mpris`: the Spotify track read from MPRIS metadata and the decisions taken
  on D-Bus signals.
- `widgets`: what the bar widgets show, and which displays get a bar.

`app/` is the program around it: command line, gpui windows, the clock reading, the Unix-socket
and D-Bus I/O, and the floating-point system statistics.
