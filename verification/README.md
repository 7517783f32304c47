# mdsight

The verified core of MdSight, a window that previews the Markdown being edited in Neovim
(or, read-only, a Markdown file on disk).

- `src/` is the library, proved with Verus:
  - `args` — the launch arguments and the mode they select;
  - `state` — the newest document, cursor line, search matches and problem notice;
  - `history` — back / forward through documents opened by links, and the decisions around
    opening one;
  - `nvim` — the MessagePack values Neovim sends, and which queued content update to show;
  - `render` — Markdown to HTML with comrak, and YAML front matter as a table;
  - `image` — resolving relative images and links against the document's directory;
  - `standalone` — opening, reading and reloading a file in the read-only mode;
  - `socket` — the socket names through which a second launch finds an open window.
- `app/` is the program around it: the Tauri window and its commands, the connection to
  Neovim, file watching and the sockets.
- `tests/` runs the library on concrete inputs.
