# yedit

A tabbed notepad and markdown reader for a terminal that can show documents. A
daemon per host owns the notes; `yedit [file...]` starts it if need be, hands it
the files, declares the surface to the terminal and exits.

`src/` is the library, verified with Verus. It decides; it does no I/O.

- `text`, `paths`, `json`: text, Unix paths (also on a host with other separators),
  JSON values.
- `docs`, `store`: notes and the store of the open notes, with the save guard, the
  renames, the session and the draft rows.
- `search`, `panes`, `actions`: the search, what the viewport and the sidebar show,
  and what the user does in them, as a machine that asks the host for one thing at a
  time.
- `server`, `client`, `osc`, `manifest`, `render`: the control endpoint and its
  client, the frames for the terminal, the launcher manifest, rendered markdown.
- `*_laws`: what holds of all of these together: a save never overwrites a file that
  changed unseen, a crash loses nothing that was typed, the session restores, a draft
  lands in the note that it was typed in, and more.

What stands on disk comes in as plain values. What is to be kept goes out as
effects, which the host performs in their order before it does anything else.

`app/` is that host: files, the database, sockets and threads. `tests/` runs the
library on a host in memory.
