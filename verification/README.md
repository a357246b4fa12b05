# vn_engine

The script and configuration model of a visual-novel engine, verified with Verus.

- `src/script/` — the story script: commands, the back-log and its scrolling window,
  labels and choices, and the timeline of music, backgrounds and character figures that
  is replayed when the story jumps to a block.
- `src/config/` — the engine's resource directories and the extra (gallery) settings.
- `src/media/` — background-music decisions and video file names.
- `src/error.rs` — the engine's errors and how outside errors map onto them.
- `app/` — the program: configuration files, sound output (rodio) and video (ffmpeg).
