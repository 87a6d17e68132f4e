# mdlint_rules

Markdown lint rules (the MD0xx family: heading style, list markers, trailing
spaces, link fragments, reference labels and so on), with each rule's report
proved against a specification in Verus.

## Layout

- `src/text.rs`, `src/violation.rs`, `src/config.rs`: the character model of
  text (whitespace, trimming, UTF-8 widths, decimals), the violation and fix
  values, and reading rule settings from a TOML table.
- `src/document.rs`: a document as its text, its lines and the nodes of its
  CommonMark tree in document order (kind, depth, source position and text),
  as comrak parses it.
- `src/lines.rs`, `src/nodes.rs`, `src/fences.rs`, `src/atx.rs`: shared
  machinery for rules that judge lines one by one or walk the nodes.
- `src/mdNNN.rs`: one module per rule. Each holds a spec function for the
  violations the rule reports, the executable rule whose `check` is proved to
  return exactly those, and the laws proved of the rule (fixes that leave a
  clean line, documents in one style that pass, and the like).
- `tests/`: the rules' behaviour on concrete documents.
- `app/`: serde support for the configuration types.

## Trusted boundary

Calls into comrak (parsing), toml (reading settings), regex (HTML attribute
values) and a few std functions (`str::to_lowercase`, `char::is_alphanumeric`,
conversions between `str` and `char` vectors) stand behind small
`external_body` wrappers whose contracts name their results; everything
above them is verified.
