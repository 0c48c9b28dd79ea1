# fathomable

The verified core of a terminal workspace viewer: the logic that decides
what a key press, a mouse event, a file-watcher batch or a store reload
does, written as plain functions from state and event to the next state
and the action to take, each with a contract that Verus proves.

- `src/` is the library. Every function in it is verified; the few calls
  into std and `unicode-width` stand behind small trusted wrappers in
  `text.rs` and `paths.rs`.
  - keys and menus: `bindings`, `table`, `table_laws`, `keys`, `routing`,
    `menu`, `hint`, `menu_bar`, `context_menus`, `help`;
  - the mouse: `pointer`;
  - moving through a document: `placement`, `navigation`, `jumplist`,
    `follow`, `mark_words`;
  - files and the thread store: `opening`, `watch`, `store`, `landing`;
  - the screen: `screen`, `pager`, `picker`, `notices`.
- `tests/` runs the library on concrete values.
- `app/` is a small terminal driver for the keymap popup, built on
  crossterm.
