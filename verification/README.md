# iamreader

Records audiobooks: a narrator reads fragment after fragment, goes over or in between
earlier ones, marks chapters, and exports the book as WAV (RF64) or MP3.

- `src/` is the library, verified with Verus: the project and its edits, takes and
  playback, what the window shows, the dialogs, the export and its file formats.
  - `utils/`: texts, paths, numbers, keys and commands.
  - `audio/`: sound files of an export, merging, levels, graphs and their cache.
  - `project/`: the project, markers, dialogs, mixing, tags, the course of an export.
  - `ui/`: the copy of the project that a window shows, and the window's events.
  - `app/`: what commands do to the recorder, and what has to follow outside.
- `app/` is the program around it: devices, files, threads, models and floating point.
- `tests/` runs the library on concrete values.

The library never performs input or output. It decides, and hands back what is to be
done: effects and steps, the bytes and patches of a file, the tasks of an export. Times
are milliseconds. Where it calls an outside crate (`hound`, `id3`, `mp3lame-encoder`,
`serde_json`), a doc comment at the call says what is taken for granted.
