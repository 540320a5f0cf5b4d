# kiosk

A keyboard-driven game kiosk for a Raspberry Pi: a game selector, charades,
pictionary and a trivia game whose questions come from the Gemini API.

- `src/` is the library, verified with Verus: the menus and screens of each
  game as state machines driven by keys, the word queues that deal prompts,
  the trivia cache (staleness, seen questions, round selection, duplicate
  filtering), the prompts sent to the model, the reading of its replies and
  of the asset files, and the pixel packing for the framebuffer and X11.
- `app/` is the program around it: `kiosk [kiosk|charades|pictionary|trivia]`
  opens an X11 window, the Linux framebuffer or a plain window, draws with
  fontdue, reads keys, talks to the network and the cache files, and runs
  loads in background threads.
- `tests/` runs the library on concrete values.

Assets (`font.ttf`, the word lists, `bible-books-chapter-counts.txt`,
`dictionary-words.txt`, `riddle-topics.json`) are read at run time from
`charades-assets/`, `pictionary-assets/`, `trivia-assets/` or `assets/` next
to the executable.
