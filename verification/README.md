# rata

A terminal HTTP client driven by OpenAPI documents. The crate is a library whose
behaviour is stated in Verus contracts and proved; a thin program around it draws the
screen, reads the keyboard, the mouse, the disk and the network.

## Layout

- `src/` — the verified library.
  - `method`, `project`, `path_match`, `paths`, `discovery`: HTTP methods, the model of a
    project (operations grouped by tag, examples on disk), matching URLs against path
    templates, and finding the `.rata` directory and its OpenAPI document.
  - `document`: reading the text of an OpenAPI document into the parts the library
    uses, through `openapiv3`.
  - `refs`: `$ref` entries that point into other files, JSON pointers, and the
    resolution of a document against the files it names.
  - `tui`, `keys`, `mouse`, `flow`, `tabs`: the state of the client and how each key,
    mouse event and outside result changes it; work that needs the outside world comes
    back as a `Task`.
  - `editing`, `layout`, `text`, `template`, `request`, `json`, `numfmt`, `panels`:
    text editing, wrapping and cursor geometry, `{{variable}}` templates, the request
    that is sent, and the response panels.
  - `look`, `view`: styled spans for every part of the screen.
  - `cli`, `guards`: command-line arguments and the checks that guard the state
    machine's preconditions.
- `tests/` — tests run against the compiled library with the real outside crates.
- `app/` — the program: argument parsing, terminal drawing, the event loop, files,
  the network and the clipboard.

## Behaviour of the tables and editors

- `j` and `k` move through the rows of a Params or Headers table; `j` stops on the
  "add" row below the last one.
- `Enter` on a row starts editing its value; `Enter` again keeps the edit, `Esc` puts
  the row back as it was before the edit began.
- Clicking a row of a table starts editing that row.
- `e` with no panel focused starts editing the URL.
- The request panel's first tab is labelled "Params" with the number of rows.
- An operation's URL is the first server's URL followed by its path; the examples of an
  operation are listed from `<root>/examples/<path>/<method>`, or from
  `<root>/<path>/<method>` when the first is not a directory.
- Example bodies are pretty-printed JSON when they are loaded into the request editor.
