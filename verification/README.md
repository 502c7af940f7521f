# modulo

Native dialogs (forms and search boxes) described in YAML or JSON.

The library in `src/` is verified with Verus:

- `layout` — the layout language of forms: one row per non-blank line,
  `{{name}}` placeholders (first `{{` to last `}}` of a line) become input
  fields. `parse_layout` is proved against a specification of the language,
  and the laws `lemma_layout_rows` / `lemma_tokenize_render` state that rows
  correspond to non-blank lines and that writing a row back gives its line.
- `form_config`, `form_types`, `generator` — form descriptors, the dialog
  schema, and `generate`, proved to build one field per layout row.
- `search_config`, `search_types`, `search_generator`, `search_algorithm` —
  search descriptors and the `exact`, `iexact` and `ikey` algorithms, proved
  to return exactly the matching entries, in order. `ikey` combines
  keywords by "and" (`lemma_keywords_conjunction`, with the contract of
  `case_insensitive_keyword` for a query split at a space), selects every
  entry for a whitespace-only query, and ignores the case of an ASCII
  query (`lemma_keyword_query_case`).
- `text` — Unicode whitespace, trimming, substring search and word splitting.

`app/` is the command-line program: argument handling, reading the
descriptor with serde, and the calls into the native toolkit.
