# heddle

An agent-native Matrix client for the terminal, as a library whose behaviour is stated in
contracts and proved with Verus.

## Layout

- `src/` is the library.
  - `agent/` is what agents send: the wire format, the sessions it folds into, the tool calls
    that can be recovered from plain text, and the integrations that read them.
  - `layout/` is workspaces, tabs and panes, the tiling of a tab, and saving an arrangement.
  - `matrix/` is what the worker tells the app and what it decides: which job a command comes
    to, which snapshot is shown, how a verification is followed, where a session is kept.
  - `app/` is the client: keys, composer, palette, pickers, configuration, the checks of an
    installation, what is drawn, and `app/state/`, the state that it all acts on.
  - `json`, `text`, `seqs`, `table` and `paths` are what these share.
- `app/` is the program around the library: arguments, files, the terminal, and the Matrix SDK.
- `tests/` runs the library on concrete values.

## Reading the contracts

A type `X` that holds text or lists has a mathematical content `XModel`, and `x@` is that
content. A method that changes `x` says `final(self)@ == old(self)@.method(..)`, where `method`
is a function on the content that says what happens. What holds across functions is stated by
the proof functions whose names begin with `law_`; those of the client's state are in
`src/app/state/laws.rs`.

What is not proved is what the crates used here do: the tiling engine, grapheme clusters and
their widths, the emoji table, TOML and JSON, and ratatui's wrapping. Each such call stands in a
small function that is marked `external_body` and says above it what is believed of the call.
