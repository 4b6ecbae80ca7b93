# otto_tui

The logic of a terminal client for an agent server, written in Verus: every
function states what it returns or changes, and Verus proves it.

- `src/` is the verified library.
  - `state`, `update`, `fold`, `panels`, `routing`, `effects`: the client's state,
    and how messages, streamed events and keys change it. Each operation is
    stated as a function on `AppModel`.
  - `laws`: what holds of the state as a whole, whatever comes.
  - `input`: the prompt editor, with soft wrapping and undo.
  - `overlay`, `palette`, `dashboard`, `transcript`: the pieces that the state is
    made of.
  - `sse`, `json`, `client`: frames of the event stream, and the bodies of
    requests and replies.
  - `render`, `view`, `splash`, `narration`: styled lines and the panes of the
    screen.
  - `theme`, `appearance`, `terminal`: styles, color depth and escape sequences.
  - `text`, `keys`, `events`: basics.
- `tests/` runs the library with the crates it calls.
- `app/` is what runs around it: the terminal, HTTP, and the event loop.

Calls into other crates stand behind small functions whose contracts are believed:
`serde_json`, `unicode-width`, `unicode-segmentation`, `pulldown-cmark`, `syntect`,
`similar`, `base64`, `ratatui`'s line counting and layout, and a few functions of the
standard library.
Each says in its doc comment what is claimed of it.
