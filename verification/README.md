# Sticky

Sticky is a GTK4 desktop application for floating sticky notes that can be
expanded into an infinite whiteboard of blocks (markdown text, checklists,
code, focus timers, pictures and files), linked into mind maps.

- `src/` is the verified library (Verus): the note store's commands and
  recycle-bin rules (`db`), block content rules, checklist framing, the
  focus timer and the inline calculator (`block`), the markdown span finder
  and formatting edits (`markdown`), canvas state and computations
  (`canvas`), note-window decisions (`note`), desktop entries, the tray menu,
  the command line and search labels (`desktop`), and string helpers
  (`text`).
- `app/` is the GTK application around it: widgets, the SQLite file, the
  portals, the tray and the network calls.
- `tests/` exercises the library.
