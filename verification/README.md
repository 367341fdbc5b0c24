# slipstream

The core of the Slipstream Markdown editor, verified with Verus.

- `src/events.rs` — Markdown events as plain values, and the call into
  pulldown-cmark that produces them.
- `src/render.rs` — rendering events to HTML, with `data-source-line`
  attributes on block-level elements for scroll synchronisation.
- `src/lines.rs` — byte offsets to 0-based line numbers.
- `src/percent.rs` — percent-encoding of image paths for `localimage://` URLs
  and the decoding back; the round trip is proved.
- `src/paths.rs` — resolving image references and guessing MIME types.
- `src/document.rs` — the shared document and the payload that keeps windows in sync.
- `src/window.rs` — labels for new editor windows.
- `src/text.rs` — small text utilities.
- `app/` — the Tauri shell: commands, file I/O, the `localimage://` protocol.
