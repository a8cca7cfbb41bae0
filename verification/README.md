# tau_gui

The headless core of the tau desktop client, verified with Verus.

`src/` holds the models and decisions of the client, each function with a
contract that Verus proves:

- `proto/` — the typed shapes the client exchanges with the tau daemon.
- `chat`, `feed` — the conversation: the reducer over streamed turn events
  and the feed projection of typed events.
- `composer`, `input`, `segments`, `text` — the prompt editor: selection,
  grapheme-aware motion, undo and history, input-method ranges, and the
  line layout (runs, caret, selection pieces) that drawing starts from.
- `picker`, `order` — model and agent pickers, commands and suggestions.
- `preferences` — GUI preferences and their KDL document.
- `projects`, `shell`, `sessions` — the project registry, the project rail
  and the session navigator.
- `operations` — the repository panel and its keep marks.
- `backend`, `account`, `view`, `theme` — the daemon adapter's requests and
  lifecycle, the account sheet, the conversation view's rules and its
  description (transcript, status, sidebar rows), the colours.

Laws that span several functions are public proof functions named `law_*`.

`app/` is the program around the library: argument handling, the
preferences file, the JSON form of protocol events, and the window layout
by width.  `tests/` exercises the library on concrete values.
