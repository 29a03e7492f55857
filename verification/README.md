# mc_rs

The core of a two-panel file manager, written in Verus: the logic is
verified against contracts; the parts that touch files, the environment,
the terminal and the clipboard live in `app/`.

Layout of `src/`:

- `key`, `action`: key chords in mc syntax (parse and print, with the
  round trip proved) and the actions keys are bound to.
- `path`: layered virtual paths (`local:/a.tar!tar:/x`), with the
  write-then-read round trip proved.
- `entry`, `sort`, `glob`, `panel`, `ops`: directory entries, the panel
  sort order (a stable sort, proved), the filter glob, panel state and its
  directory history, and the small parsers behind file operations.
- `config`: icons, file highlighting, extension bindings, the keymap, the
  color scheme and skin files, the hotlist, and the configuration paths.
- `archive`, `net`: archive entry-path sanitising and type detection, the
  decompressed-size cap, and FTP/SFTP/WebDAV endpoint locations.
- `diff`: a line diff laid out as side-by-side rows and hunks.
- `dialog`: the key handling of each modal dialog as a state machine.
- `commander`, `modal`, `mouse`: what keys, mouse events and pastes do on
  the panels and in the dialog in front of them.
- `jobs`: the bounded job log and how job reports update it and the
  progress dialog.
- `viewer`: the file viewer (decoding, scrolling, search, hex dump).
- `find`: the Find File query and what the walk does with each entry.
- `multistatus`: the WebDAV directory listing read from XML events.
- `run_loop`: one turn of the main loop, from the event to the session's
  next state and what the loop does next.
- `connect`: what follows a connection attempt to a remote server (mount,
  status line or password prompt), from the attempt's outcome.
- `fspath`, `archive_index`: path parents and the member index of a mounted
  archive.
- `subshell`, `clipboard`: shell detection, quoting (read back by a shell
  as the text itself, proved) and exit hooks; the OSC 52 escape.
- `text`, `num`, `ord`: character-sequence, number and ordering helpers.

`app/` loads and saves the TOML files, reads environment variables, copies
to the clipboard and runs the user's shell, calling into the library for
every decision.
