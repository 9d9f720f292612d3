# klyppd

klyppd is a screen-clipping tool for Linux desktops: it keeps a replay buffer with
`gpu-screen-recorder`, saves the last seconds on a hotkey, names clips after the focused
application, and lets the user trim, crop and preview clips.

## Layout

- `src/` is the library, written in Verus and verified: the recorder's state machine and
  its command lines, which audio tracks a capture records, the ffmpeg command lines of the
  editor, hotkey matching and what a hotkey does, the byte ranges the preview server
  answers, the preview cache's pruning and eviction order, settings defaults and derived
  paths, application naming from window classes and desktop entries, which files of the
  clips directory are new clips, audio-device listings, and the small text and encoding
  routines these rest on.
- `app/` is the application around it: processes, files, SQLite, sockets, keyboard input,
  the commands of the user interface, and what needs floating point (clip durations, the
  chime's samples, window opacity).
- `tests/` runs the library on concrete values.
