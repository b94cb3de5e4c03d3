# magic_cursor

The logic of a desktop assistant that opens an AI overlay when the user
shakes the mouse, written in Verus with its behaviour stated in contracts.

- `src/` is the verified library:
  - `shake_detector`: the shake detector (time window, reversal counting,
    cooldown) and its laws.
  - `entity`: content type, first entity and quick actions of a selection.
  - `context`: freshness of clipboard selections, application detection from
    window titles, browser URL scripts, the screenshot area.
  - `providers`: routing a chat turn to a provider, vision routing, reading
    streamed lines, the answer of a streamed turn, message layout, requests
    for speech to text.
  - `stream`: splitting a byte stream into lines independently of chunking.
  - `history`: session history with newest-first order and a size cap.
  - `config`, `models`, `overlay`, `text`: settings, model lists, overlay
    placement, string helpers.
- `tests/` runs the library on concrete values.
- `app/` is the desktop shell around it: windows, global mouse hook, HTTP,
  files, clipboard and screenshots.
