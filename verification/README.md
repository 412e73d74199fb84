# sift

A terminal file searcher built on `fd`, `rg` and `bat`, for Linux.

The logic is a library in Rust, specified and proved with Verus. It never waits and never touches
the outside: it takes keys, pasted text and finished work, and answers with a new state, with
effects to be performed and with things to draw.

- `src/` is the library.
  - `state`, `app`: the state of the program, and how keys, pasted text and messages change it.
  - `laws`: what holds of it in every state.
  - `search`, `fuzzy`, `escapes`, `paths`, `jobs`: the searches, from the query to the ranked results.
  - `preview`, `image_preview`: what is shown of a file, and the cache of pictures.
  - `ui`, `wrap`, `layout`, `theme`: what is drawn, down to the columns of a character.
  - `clipboard`, `editor`, `config`, `keys`, `edit`, `sort`, `text`: the rest.
- `app/` is the program around it: the terminal, processes, files and settings.
- `tests/` runs the library on concrete values.

What the library takes from other crates without proof is stated at the functions marked
`external_body`: the width tables of unicode-width, the layout of ratatui, the colours that
ansi-to-tui reads, base64 and the codecs of image and jpeg-decoder.
