# settings_ui

The state and decision logic of a web UI that manages secrets, templates and
product domains, written in Verus and verified.

- `src/text.rs`: text as sequences of characters — substring search, lower
  case (through std), trimming, decimal numbers written and read,
  lexicographic order, lines, `*`
  replacement.
- `src/ordering.rs`: ordering records by a key with later records replacing
  earlier ones, and finding the first greatest key.
- `src/models.rs`: records exchanged with the server.
- `src/views/`: the pages and dialogs — template selection for export, the
  edit dialogs for secrets, templates and product domains, the secret
  pickers, which dialog the modal pad shows, usage highlighting, the
  Cloudflare status of a domain, and the ordering and filtering of the
  lists.
- `app/`: the serialisable copies of the records and the dialog properties.
- `tests/`: tests on concrete values.
