# ormcle

Derive macros that turn a struct definition into database access code:
`Table` writes a repository with `new` and `find_all` (and `find_by_id` when a
field is flagged `#[ormcle(primary_key)]` or `#[id(..)]`), `Test` writes a `get_row` constructor, and
`Id` checks a key struct.

- `src/` is the verified library. `token` holds the token trees of a derive
  input as plain values; `attr`, `attribute`, `field` and `entity` read the
  `ormcle(...)` attributes, the fields and the struct name; `code` writes the
  emitted text; `expand` decides what each derive emits or why it refuses the
  input; `laws` states properties of the readers and of the expansions;
  `id` holds the key-type trait; `entities` the example tables.
- `app/` turns `proc_macro` token streams into the library's tokens, and the
  emitted text back into a token stream; a refusal becomes a panic.
- `tests/` runs the readers and the expansions on concrete inputs.
