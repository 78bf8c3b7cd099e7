# dmnote_editor_engine

The editing-data rules of a key-overlay editor, written in Verus and proved against
their contracts: the asset store of the web host, preset export and import with embedded
images, sounds and fonts, tab layouts and resets, the sound library, counter animation
presets, style-sheet history, image content checks (binary signatures and SVG
documents), `file:` URLs of local images, preview validation and bookkeeping, the web
session's tab, style-sheet, note-setting, overlay and read commands, plugin storage, the
admission of gesture commits, and the plugin runtime authority.

Layout:

- `src/` — the verified library, one module per area; public functions state in
  `ensures` what they return or change, and the public `lemma_*` proof functions state
  the properties that span several operations (such as what a read gives back after a
  write). Where a result comes from an outside crate, the contract states what holds of
  every result it may give, or names the result of a deterministic call (the events that
  the XML reader yields for a text, for instance) and states the library's verdict over
  that name.
- `tests/` — tests of the library on concrete values.
- `app/` — host-side glue that Verus does not check: JSON shapes, file reading, the
  floating-point fields that the library keeps as bit patterns, the command dispatch of
  the web session, and the channels of the preview broker.

Outside crates are called from `src/` only through the small trusted wrappers whose doc
comments name the function they call and what their contract claims of it (`base64`,
`uuid`, `imagesize`, `infer`, `quick-xml`, and a few functions of `std`).
