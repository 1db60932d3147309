# toolu_orm_core

The core of a schema-first SQL layer, written in Verus: dialect-aware SQL
building blocks and the schema diff that turns two versions of a schema into
migration operations. Every function in `src/` carries a contract that Verus
proves.

## Layout

- `src/text.rs`, `src/keyed.rs` — characters and strings; name-keyed
  collections kept in the order a by-name map walks them.
- `src/dialect.rs`, `src/alias/` — dialects, placeholders, identifier quoting,
  table references and alias-qualified columns.
- `src/column.rs`, `src/query_column.rs` — column types and their DDL, column
  definitions, typed column predicates.
- `src/expr/` — expression trees, the placeholder buffer with shared binds,
  raw-SQL renumbering, and rendering.
- `src/schema.rs`, `src/snapshot.rs` — the schema model and its recorded
  snapshot.
- `src/rename.rs`, `src/diff/` — the diff: enums, tables, columns, indexes,
  foreign keys, CHECK constraints, row security, virtual tables and FTS5
  trigger planning.
- `app/` — serde forms of the column types and the error type with its
  messages (outside derives, which `src/` cannot carry).
- `tests/` — scenarios on concrete values.

## Laws proved

- Diffing a registry against its own snapshot, with no renames, yields no
  operation (`diff::engine::lemma_diff_against_own_snapshot_is_empty`).
- A shared bind takes one placeholder however often it is used
  (`expr::binding::lemma_shared_bind_reuses_index`).
- Rendering only appends bound values (`expr::render` lemmas), and a node
  renders alike from any buffer of the same length and ledger, so a right
  operand numbers from where the left one stopped: for `AND`
  (`expr::numbering::lemma_and_fragment_composes`) and for `LIKE … ESCAPE`,
  whose escape character is bound last
  (`expr::numbering::lemma_like_escape_fragment_composes`).
- The diff asks a rename resolver the table question, then one column
  question per kept table built from the table renames it answered, and
  diffs with exactly those answers (`diff::engine::resolve_renames`,
  `diff::engine::diff_with_resolver`); with `NoRenames` that is the plain
  `diff` (`diff::engine::lemma_diff_is_diff_with_no_renames`).
- A diff opens with exactly its enum operations and no later operation
  touches an enum (`diff::engine::lemma_diff_enum_ops_lead`, and the
  contract of `diff_with_resolver`).
- A snapshot read from elsewhere can be checked for what the diff requires
  of it (`Snapshot::is_well_formed`).
- A LIKE literal matches exactly the text it was made from
  (`expr::like::lemma_like_pattern_literal_matches_text`).
- An FTS5 option reads back the value it renders
  (`diff::virtual_tables::lemma_option_value_reads_rendered`).
- A diff's FTS5 trigger plan creates each table's triggers at most once, and
  drops them at most once when the renames pair names one to one
  (`diff::fts5_sync` lemmas).
