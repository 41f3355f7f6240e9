# rustyoutube_cli

A terminal YouTube player (search with yt-dlp, play audio through mpv,
spectrum from the sound card) whose core is verified with Verus.

- `src/` — the verified library:
  - `model.rs`: videos, tracks, the playlist with shuffle, repeat modes,
    duration and view-count formatting;
  - `rounding.rs`: exact integer rendering of the floating-point steps
    behind view counts such as `1.2k` and the scrollbar's thumb;
  - `float.rs`: doubles carried as their bits — the `as u64` of mpv's
    seconds and the cells of the progress bar, computed exactly;
  - `app.rs`: the player's state machine — key presses, search answers,
    ticks and the end of tracks in, `Command`s out;
  - `screen.rs`: every text the screen shows (truncation by display width,
    rows, footer, scrollbar, progress and volume bars);
  - `ytdlp.rs`, `mpv.rs`: argument lists and output checks for yt-dlp, and
    the request vocabulary and reply check of mpv's JSON socket;
  - `config.rs`: file locations and how the config file fills in settings;
  - `visualizer.rs`: choosing the monitor capture device;
  - `text.rs`: decimal rendering, `format!`-style alignment, trimming.
- `app/` — the program around it: command line, files, subprocesses, the
  mpv socket, audio capture and FFT, drawing with ratatui, the event loop.
- `tests/` — tests of the library. Besides the proofs, the tests compare
  the integer renderings of floating-point steps (view counts, scrollbar,
  progress bar, `as u64`) with the same steps done in `f64`.
