# range_print_derive

Code generation for two derives, `Range` (an impl of `crate::types::GetRange`
whose `get_range` spans an item's fields) and `Print` (an impl of
`crate::types::Print` that prints the fields one after the other).

- `src/` is the verified library. `parse` parses the item's source text with
  `syn` and describes it with the plain values of `input`; `tokens` is the
  generated code as a flat token list; `range` and `print` hold the two
  generators, each function with a contract that states the exact tokens it
  produces; `brackets` defines well-bracketed token lists. The laws are public
  proof functions next to the code they are about: struct fields printed in
  declaration order; the fields of named variants, and of tuple variants with
  at most two fields, printed in declaration order; one match arm per variant
  name; distinct positional bindings; well-bracketed output.
- `app/` is the compiler-facing side: it hands the library the item's source
  text and turns the generated token list into a `proc_macro2` token stream.
- `tests/` checks the generated code on concrete items.
