# adguard-cli-gui

A desktop window for controlling `adguard-cli` (protection on/off, licence,
filters, updates), with its logic written in Verus and proved.

- `src/` — the verified library
  - `text.rs`: a character-sequence model of the text handling (lines,
    trimming, substring search, UTF-8 byte lengths, decimal numbers);
  - `cli.rs`: what the replies of `adguard-cli` mean. Operations that need
    several commands are state machines: each step takes the reply of the
    last command and names the next command or returns the result;
  - `app.rs`: the interface state machine (`AppState::update`), which
    returns the background work a message starts;
  - `present.rs`: what the window shows for a state (screen, captions, colours).
- `app/` — the program: runs the commands, drives the state machines, and
  draws the window with iced.
- `tests/` — tests of the library on concrete replies.
