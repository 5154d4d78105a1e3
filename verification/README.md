# tilecap

A screenshot tool for tiling window managers (X11, and wlr-screencopy on
Wayland). `src/` is the verified library; `app/` is the program around it.

- `geometry` – `WxH+X+Y` parsing, with a round-trip law for canonical strings.
- `cli` – the command-line grammar (`-m`, `-o`, `-d`, `-n`, `-r`, `-c`, `-h`).
- `calendar` – leap years, days to dates, and the `Screenshot_…` file stem.
- `paths` – path joining, default output directory and config file.
- `image` – BGR(X) to RGB conversion of X replies and screen-copy buffers, PNG encoding.
- `capture` – which capture to make for a mode, geometry and display server.
- `x11` – rubber-band selection, Escape keycode lookup, top-level window walk.
- `wayland` – registry globals, screen-copy frame state and outcome.
